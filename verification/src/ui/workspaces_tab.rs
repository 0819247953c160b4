//! The workspaces tab: lists `jj workspace list` in the main panel and shows the
//! selected workspace's working-copy commit on the right.
//!
//! This is the tab's state and its decisions. Its text fields, its confirmation
//! dialog and its details panel are widgets of the terminal library that the
//! caller keeps beside it: the responses here say when one of them gets an
//! event, and when a command runs, whose outcome comes back through
//! `WorkspacesTab::command_finished`.

use vstd::prelude::*;

use crate::commander::workspaces::{workspace_views, Workspace, WorkspaceView};
use crate::commander::{owned_strings, string_views, CommandError, JjCommand};
use crate::text::{chars_of, lines, split_lines, string_of, trim, trim_chars, views};
use crate::ui::help_popup::HelpPopup;
use crate::ui::utils::{
    block_inner, bordered_inner, centered_lines_rect, centered_rect_line_height, length_part,
    lengths_fit, percent_part, percentages_fit, split_area, split_part, tabs_expanded,
    tabs_to_spaces, LayoutConstraint, LayoutDirection, Rect,
};
use crate::ui::{ComponentAction, InputEvent, KeyCode, KeyEvent};

verus! {

/// The id of the confirmation dialog for forgetting a workspace.
pub const FORGET_POPUP_ID: u16 = 1;

/// The "Add workspace" popup: which field has the focus (0 = path, 1 = name), the
/// revision to base the workspace on (`jj workspace add -r`), set when the popup
/// is opened from the log tab on a specific change, and the error to show.
pub struct AddPopup {
    pub focus: u8,
    pub revision: Option<String>,
    pub error: Option<String>,
}

/// The "Rename workspace" popup: the name being replaced and the error to show.
pub struct RenamePopup {
    pub old_name: String,
    pub error: Option<String>,
}

/// A `jj workspace` command that the tab asks for.
pub enum TabCommand {
    Add { path: String, name: Option<String>, revision: Option<String> },
    Rename(String),
    Forget(String),
    UpdateStale,
}

/// What the tab asks of its caller after an input event.
pub enum TabResponse {
    /// The event is not the tab's.
    NotHandled,
    /// The event is handled.
    Handled,
    /// The event is handled; the application acts.
    Action(ComponentAction),
    /// Hand the event to the add popup's path field.
    EditAddPath,
    /// Hand the event to the add popup's name field.
    EditAddName,
    /// Hand the event to the rename popup's field.
    EditRename,
    /// Hand the key to the forget confirmation dialog.
    ForgetDialogKey,
    /// Close the forget confirmation dialog.
    CloseForgetDialog,
    /// Open the forget confirmation dialog for this workspace (its name and root).
    OpenForgetDialog { name: String, root: String },
    /// Open the add popup's fields (the path field seeded with the default path).
    OpenAdd,
    /// Open the rename popup's field, seeded with this name.
    OpenRename(String),
    /// List the workspaces again and pass the result to `refresh`.
    Refresh,
    /// Show the newly selected workspace's details.
    SelectionChanged,
    /// Run this command and pass its outcome to `command_finished`.
    Run(TabCommand),
    /// Offer the key to the details panel; when the panel does not take it, pass
    /// it to `key_input`.
    OfferToDetails,
    /// Offer the mouse event to the details panel.
    OfferMouseToDetails,
}

/// The tab's state.
pub struct WorkspacesTab {
    pub workspaces_output: Result<Vec<Workspace>, CommandError>,
    pub workspaces_height: u16,
    pub selected: Option<Workspace>,
    pub add: Option<AddPopup>,
    pub rename: Option<RenamePopup>,
    pub forget_target: Option<String>,
}

// ---------------------------------------------------------------------------
// Selection

/// The index of the first workspace lazyjj is attached to.
pub open spec fn first_current(ws: Seq<WorkspaceView>) -> Option<int>
    decreases ws.len(),
{
    if ws.len() == 0 {
        None
    } else if ws[0].is_current {
        Some(0)
    } else {
        match first_current(ws.drop_first()) {
            Some(i) => Some(i + 1),
            None => None,
        }
    }
}

/// The index of the first workspace called `name`.
pub open spec fn first_named(ws: Seq<WorkspaceView>, name: Seq<char>) -> Option<int>
    decreases ws.len(),
{
    if ws.len() == 0 {
        None
    } else if ws[0].name == name {
        Some(0)
    } else {
        match first_named(ws.drop_first(), name) {
            Some(i) => Some(i + 1),
            None => None,
        }
    }
}

/// The workspace selected in a fresh list: the current one, else the first.
pub open spec fn initial_index(ws: Seq<WorkspaceView>) -> Option<int> {
    match first_current(ws) {
        Some(i) => Some(i),
        None => if ws.len() > 0 {
            Some(0)
        } else {
            None
        },
    }
}

/// The workspace selected after the list is refreshed: the one with the name
/// selected before, else the current one, else the first.
pub open spec fn reselect_index(ws: Seq<WorkspaceView>, previous: Option<Seq<char>>) -> Option<int> {
    match previous {
        Some(name) => match first_named(ws, name) {
            Some(i) => Some(i),
            None => initial_index(ws),
        },
        None => initial_index(ws),
    }
}

/// Whether `selected` is the workspace at `index` of the listing (nothing when
/// there is no index or the listing failed).
pub open spec fn selection_is(
    selected: Option<Workspace>,
    output: Result<Vec<Workspace>, CommandError>,
    index: Option<int>,
) -> bool {
    match (output, index) {
        (Ok(list), Some(i)) => selected == Some(list@[i]),
        _ => selected is None,
    }
}

/// The found indices are within the list, and name what they say.
proof fn lemma_first_found(ws: Seq<WorkspaceView>, name: Seq<char>)
    ensures
        first_current(ws) matches Some(i) ==> 0 <= i < ws.len() && ws[i].is_current,
        first_named(ws, name) matches Some(i) ==> 0 <= i < ws.len() && ws[i].name == name,
        first_current(ws) is None ==> forall|i: int| 0 <= i < ws.len() ==> !ws[i].is_current,
        first_named(ws, name) is None ==> forall|i: int| 0 <= i < ws.len() ==> ws[i].name != name,
    decreases ws.len(),
{
    if ws.len() > 0 {
        lemma_first_found(ws.drop_first(), name);
        assert forall|i: int| 1 <= i < ws.len() implies ws[i] == ws.drop_first()[i - 1] by {}
    }
}

/// The index of the first workspace lazyjj is attached to.
fn find_current(list: &Vec<Workspace>) -> (r: Option<usize>)
    ensures
        r matches Some(i) ==> first_current(workspace_views(list@)) == Some(i as int),
        r is None ==> first_current(workspace_views(list@)) is None,
{
    let ghost all = workspace_views(list@);
    let mut i: usize = 0;
    assert(all.skip(0) == all);
    while i < list.len()
        invariant
            i <= list@.len(),
            all == workspace_views(list@),
            first_current(all) == (match first_current(all.skip(i as int)) {
                Some(j) => Some(j + i),
                None => None,
            }),
        decreases list@.len() - i,
    {
        assert(all.skip(i as int)[0] == list@[i as int]@);
        assert(all.skip(i as int).drop_first() == all.skip(i + 1));
        if list[i].is_current {
            return Some(i);
        }
        i += 1;
    }
    None
}

/// The index of the first workspace called `name`.
fn find_named(list: &Vec<Workspace>, name: &String) -> (r: Option<usize>)
    ensures
        r matches Some(i) ==> first_named(workspace_views(list@), name@) == Some(i as int),
        r is None ==> first_named(workspace_views(list@), name@) is None,
{
    let ghost all = workspace_views(list@);
    let mut i: usize = 0;
    assert(all.skip(0) == all);
    while i < list.len()
        invariant
            i <= list@.len(),
            all == workspace_views(list@),
            first_named(all, name@) == (match first_named(all.skip(i as int), name@) {
                Some(j) => Some(j + i),
                None => None,
            }),
        decreases list@.len() - i,
    {
        assert(all.skip(i as int)[0] == list@[i as int]@);
        assert(all.skip(i as int).drop_first() == all.skip(i + 1));
        if list[i].name == *name {
            return Some(i);
        }
        i += 1;
    }
    None
}

/// The workspace a fresh list selects.
fn initial_selection(output: &Result<Vec<Workspace>, CommandError>) -> (s: Option<Workspace>)
    ensures
        selection_is(s, *output, match output {
            Ok(list) => initial_index(workspace_views(list@)),
            Err(_) => None,
        }),
{
    match output {
        Ok(list) => {
            proof {
                lemma_first_found(workspace_views(list@), seq![]);
            }
            match find_current(list) {
                Some(i) => Some(list[i].clone()),
                None => if list.len() > 0 {
                    Some(list[0].clone())
                } else {
                    None
                },
            }
        },
        Err(_) => None,
    }
}

/// The current index of `selected` in the list: the first workspace with its name.
pub open spec fn index_of_selected(
    selected: Option<Workspace>,
    output: Result<Vec<Workspace>, CommandError>,
) -> Option<int> {
    match (selected, output) {
        (Some(s), Ok(list)) => first_named(workspace_views(list@), s.name@),
        _ => None,
    }
}

/// The row that a scroll by `delta` from row `i` lands on in a list of `len`
/// rows: the sum, kept within `0..=usize::MAX` and then within the list.
pub open spec fn scrolled_index(i: int, delta: int, len: int) -> int {
    let moved = if i + delta < 0 {
        0
    } else if i + delta > usize::MAX {
        usize::MAX as int
    } else {
        i + delta
    };
    if moved < len - 1 {
        moved
    } else {
        len - 1
    }
}

/// `usize::saturating_add_signed`.
fn add_signed_saturating(i: usize, delta: isize) -> (r: usize)
    ensures
        r == (if i + delta < 0 {
            0
        } else if i + delta > usize::MAX {
            usize::MAX as int
        } else {
            i + delta
        }),
{
    if delta >= 0 {
        i.saturating_add(delta as usize)
    } else {
        let back = ((-(delta + 1)) as usize) + 1;
        i.saturating_sub(back)
    }
}

// ---------------------------------------------------------------------------
// Details

/// The `jj log` arguments that show the working-copy commit of workspace `name`
/// (the revset `<name>@`, which works from any workspace) in detail.
pub open spec fn details_args(name: Seq<char>) -> Seq<Seq<char>> {
    seq![
        "log"@,
        "--no-graph"@,
        "-r"@,
        name + "@"@,
        "--template"@,
        "builtin_log_detailed"@,
    ]
}

/// The details shown for a workspace: a header with its name and root, then
/// the log output with its tabs expanded.
pub open spec fn details_text(name: Seq<char>, root: Seq<char>, log: Seq<char>) -> Seq<char> {
    "Workspace : "@ + name + "\nRoot      : "@ + root + "\n\n"@ + tabs_expanded(log)
}

/// The command whose output `render_details` shows for `workspace`.
pub fn details_command(workspace: &Workspace) -> (c: JjCommand)
    ensures
        string_views(c.args@) == details_args(workspace.name@),
        c.color,
        c.quiet,
{
    let mut revset = workspace.name.clone();
    revset.append("@");
    let mut args = owned_strings(
        &vec!["log", "--no-graph", "-r", "", "--template", "builtin_log_detailed"],
    );
    args.set(3, revset);
    assert(string_views(args@) =~= details_args(workspace.name@));
    JjCommand { args, color: true, quiet: true }
}

/// The details of `workspace` made of the output of `details_command`.
pub fn render_details(workspace: &Workspace, log: Result<String, CommandError>) -> (r: Result<
    String,
    CommandError,
>)
    ensures
        log matches Ok(l) ==> r matches Ok(t) && t@ == details_text(
            workspace.name@,
            workspace.root@,
            l@,
        ),
        log matches Err(e) ==> r == Err::<String, CommandError>(e),
{
    let log = match log {
        Ok(l) => l,
        Err(e) => return Err(e),
    };
    let mut text = String::from_str("Workspace : ");
    text.append(workspace.name.as_str());
    text.append("\nRoot      : ");
    text.append(workspace.root.as_str());
    text.append("\n\n");
    let expanded = tabs_to_spaces(log.as_str());
    text.append(expanded.as_str());
    Ok(text)
}

// ---------------------------------------------------------------------------
// Keys

/// Whether `k` saves a popup: Control+s or Enter.
pub open spec fn is_save_key(k: KeyEvent) -> bool {
    (k.code == KeyCode::Char('s') && k.control) || k.code == KeyCode::Enter
}

/// Executable `is_save_key`.
fn save_key(k: KeyEvent) -> (r: bool)
    ensures
        r == is_save_key(k),
{
    match k.code {
        KeyCode::Char(c) => c == 's' && k.control,
        KeyCode::Enter => true,
        _ => false,
    }
}

/// The message shown when asked to forget the current workspace.
pub open spec fn forget_current_message() -> Seq<char> {
    "Cannot forget the current workspace from inside it. Switch to another workspace first."@
}

/// The message shown when asked to rename another workspace.
pub open spec fn rename_other_message() -> Seq<char> {
    "jj only renames the current workspace. Open lazyjj inside the workspace you want to rename."@
}

/// The message shown when asked to update another workspace.
pub open spec fn update_other_message() -> Seq<char> {
    "update-stale runs inside the target workspace. Open lazyjj there first."@
}

/// Whether `r` asks to show a message with this title and text.
pub open spec fn shows_message(r: TabResponse, title: Seq<char>, message: Seq<char>) -> bool {
    r matches TabResponse::Action(ComponentAction::ShowMessage { title: t, message: m }) && t@
        == title && m@ == message
}

/// A message for the caller to show.
fn message(title: &str, text: &str) -> (r: TabResponse)
    ensures
        shows_message(r, title@, text@),
{
    TabResponse::Action(
        ComponentAction::ShowMessage {
            title: String::from_str(title),
            message: String::from_str(text),
        },
    )
}

/// The help popup's lists: the main panel's keys on the left, the details
/// panel's keys on the right.
pub open spec fn help_items() -> (Seq<(Seq<char>, Seq<char>)>, Seq<(Seq<char>, Seq<char>)>) {
    (
        seq![
            ("j/k"@, "scroll down/up"@),
            ("J/K"@, "scroll down/up by \u{bd} page"@),
            ("Enter"@, "switch to selected workspace"@),
            ("a"@, "add workspace"@),
            ("f"@, "forget workspace"@),
            ("r"@, "rename current workspace"@),
            ("s"@, "update-stale current workspace"@),
            ("R / F5"@, "refresh"@),
        ],
        seq![
            ("Ctrl+e/Ctrl+y"@, "scroll down/up"@),
            ("Ctrl+d/Ctrl+u"@, "scroll down/up by \u{bd} page"@),
            ("Ctrl+f/Ctrl+b"@, "scroll down/up by page"@),
            ("Ctrl+w"@, "toggle wrapping"@),
        ],
    )
}

/// The character views of a list of pairs of strings.
pub open spec fn pair_views(v: Seq<(String, String)>) -> Seq<(Seq<char>, Seq<char>)> {
    v.map_values(|p: (String, String)| (p.0@, p.1@))
}

/// A list of pairs of strings from pairs of string slices.
fn owned_pairs(v: &Vec<(&str, &str)>) -> (r: Vec<(String, String)>)
    ensures
        pair_views(r@) == v@.map_values(|p: (&str, &str)| (p.0@, p.1@)),
{
    let mut r: Vec<(String, String)> = Vec::new();
    let mut i: usize = 0;
    while i < v.len()
        invariant
            i <= v@.len(),
            r@.len() == i,
            pair_views(r@) == v@.map_values(|p: (&str, &str)| (p.0@, p.1@)).take(i as int),
        decreases v@.len() - i,
    {
        let ghost before = r@;
        let a = String::from_str(v[i].0);
        let b = String::from_str(v[i].1);
        r.push((a, b));
        assert(r@ == before.push((a, b)));
        assert(pair_views(r@)[i as int] == (v@[i as int].0@, v@[i as int].1@));
        assert(pair_views(r@) =~= v@.map_values(|p: (&str, &str)| (p.0@, p.1@)).take(i + 1));
        i += 1;
    }
    assert(v@.map_values(|p: (&str, &str)| (p.0@, p.1@)).take(i as int) == v@.map_values(
        |p: (&str, &str)| (p.0@, p.1@),
    ));
    r
}

/// The tab's help popup.
fn help_popup() -> (p: HelpPopup)
    ensures
        pair_views(p@.left_items) == help_items().0,
        pair_views(p@.right_items) == help_items().1,
        p@.scroll == 0,
{
    let left = owned_pairs(
        &vec![
            ("j/k", "scroll down/up"),
            ("J/K", "scroll down/up by \u{bd} page"),
            ("Enter", "switch to selected workspace"),
            ("a", "add workspace"),
            ("f", "forget workspace"),
            ("r", "rename current workspace"),
            ("s", "update-stale current workspace"),
            ("R / F5", "refresh"),
        ],
    );
    let right = owned_pairs(
        &vec![
            ("Ctrl+e/Ctrl+y", "scroll down/up"),
            ("Ctrl+d/Ctrl+u", "scroll down/up by \u{bd} page"),
            ("Ctrl+f/Ctrl+b", "scroll down/up by page"),
            ("Ctrl+w", "toggle wrapping"),
        ],
    );
    HelpPopup::new(left, right)
}

// ---------------------------------------------------------------------------
// The tab

/// Whether two states of the tab agree on everything but the popups.
pub open spec fn same_list(a: WorkspacesTab, b: WorkspacesTab) -> bool {
    &&& a.workspaces_output == b.workspaces_output
    &&& a.workspaces_height == b.workspaces_height
    &&& a.selected == b.selected
    &&& a.forget_target == b.forget_target
}

/// Whether `p` is the add popup `a` showing the error `error`.
pub open spec fn add_with_error(p: Option<AddPopup>, a: AddPopup, error: Seq<char>) -> bool {
    p matches Some(b) && b.focus == a.focus && b.revision == a.revision && (b.error matches Some(
        e,
    ) && e@ == error)
}

/// Whether `p` is the rename popup `a` showing the error `error`.
pub open spec fn rename_with_error(p: Option<RenamePopup>, a: RenamePopup, error: Seq<char>) -> bool {
    p matches Some(b) && b.old_name == a.old_name && (b.error matches Some(e) && e@ == error)
}

/// The view of an optional string.
pub open spec fn opt_view(s: Option<String>) -> Option<Seq<char>> {
    match s {
        Some(s) => Some(s@),
        None => None,
    }
}

/// What a key does while the add popup is open: Tab moves the focus, Esc closes
/// the popup, saving checks the path (trimmed, it must not be empty) and asks
/// to run `jj workspace add` with the trimmed path, the trimmed name when it is
/// not empty, and the popup's revision; any other key goes to the focused field.
pub open spec fn add_popup_key(
    old: WorkspacesTab,
    new: WorkspacesTab,
    k: KeyEvent,
    path: Seq<char>,
    name: Seq<char>,
    r: TabResponse,
) -> bool {
    let a = old.add->0;
    &&& same_list(old, new)
    &&& new.rename == old.rename
    &&& if k.code == KeyCode::Tab {
        &&& r is Handled
        &&& new.add == Some(
            AddPopup {
                focus: if a.focus == 0 {
                    1u8
                } else {
                    0u8
                },
                ..a
            },
        )
    } else if k.code == KeyCode::Esc {
        r is Handled && new.add is None
    } else if is_save_key(k) {
        if trim(path).len() == 0 {
            r is Handled && add_with_error(new.add, a, "Path cannot be empty"@)
        } else {
            &&& new.add == old.add
            &&& r matches TabResponse::Run(TabCommand::Add { path: p, name: n, revision: v })
            &&& p@ == trim(path)
            &&& opt_view(n) == (if trim(name).len() == 0 {
                None
            } else {
                Some(trim(name))
            })
            &&& v == a.revision
        }
    } else {
        &&& new.add == old.add
        &&& if a.focus == 0 {
            r is EditAddPath
        } else {
            r is EditAddName
        }
    }
}

/// What an event does while the rename popup is open: saving checks the new
/// name (trimmed, it must not be empty), closes the popup when the name is
/// unchanged, and otherwise asks to run `jj workspace rename`; Esc closes the
/// popup; anything else goes to the popup's field.
pub open spec fn rename_popup_event(
    old: WorkspacesTab,
    new: WorkspacesTab,
    event: InputEvent,
    text: Seq<char>,
    r: TabResponse,
) -> bool {
    let a = old.rename->0;
    &&& same_list(old, new)
    &&& new.add == old.add
    &&& if event matches InputEvent::Key(k) && is_save_key(k) {
        if trim(text).len() == 0 {
            r is Handled && rename_with_error(new.rename, a, "Workspace name cannot be empty"@)
        } else if trim(text) == a.old_name@ {
            r is Handled && new.rename is None
        } else {
            &&& new.rename == old.rename
            &&& r matches TabResponse::Run(TabCommand::Rename(n)) && n@ == trim(text)
        }
    } else if event matches InputEvent::Key(k) && k.code == KeyCode::Esc {
        r is Handled && new.rename is None
    } else {
        new.rename == old.rename && r is EditRename
    }
}

/// The seed of the path field in the "Add workspace" popup, given the value of
/// `HOME`: the home directory expanded (`~` becomes `$HOME`) so that jj gets an
/// absolute path, or a literal `~` when `HOME` is not set.
pub open spec fn default_path_prefix(home: Option<Seq<char>>) -> Seq<char> {
    match home {
        Some(h) => h + "/"@ + "Development/app-mobile-"@,
        None => "~/"@ + "Development/app-mobile-"@,
    }
}

/// Default seed for the path field in the Add Workspace popup, given the value
/// of `HOME` (lossily made text).
pub fn default_workspace_path_prefix(home: Option<String>) -> (s: String)
    ensures
        s@ == default_path_prefix(opt_view(home)),
{
    let mut s = match home {
        Some(h) => {
            let mut s = h;
            s.append("/");
            s
        },
        None => String::from_str("~/"),
    };
    s.append("Development/app-mobile-");
    s
}

impl WorkspacesTab {
    /// The tab over a listing of the workspaces (the result of `get_workspaces`),
    /// with the current workspace selected, or else the first.
    pub fn new(workspaces_output: Result<Vec<Workspace>, CommandError>) -> (t: Self)
        ensures
            t.workspaces_output == workspaces_output,
            selection_is(t.selected, workspaces_output, match workspaces_output {
                Ok(list) => initial_index(workspace_views(list@)),
                Err(_) => None,
            }),
            t.workspaces_height == 0,
            t.add is None,
            t.rename is None,
            t.forget_target is None,
    {
        let selected = initial_selection(&workspaces_output);
        WorkspacesTab {
            workspaces_output,
            workspaces_height: 0,
            selected,
            add: None,
            rename: None,
            forget_target: None,
        }
    }

    /// Takes a new listing, keeping the selection on the workspace with the same
    /// name, or else selecting the current one, or else the first.
    pub fn refresh(&mut self, workspaces_output: Result<Vec<Workspace>, CommandError>)
        ensures
            final(self).workspaces_output == workspaces_output,
            selection_is(final(self).selected, workspaces_output, match workspaces_output {
                Ok(list) => reselect_index(
                    workspace_views(list@),
                    match old(self).selected {
                        Some(w) => Some(w.name@),
                        None => None,
                    },
                ),
                Err(_) => None,
            }),
            final(self).workspaces_height == old(self).workspaces_height,
            final(self).add == old(self).add,
            final(self).rename == old(self).rename,
            final(self).forget_target == old(self).forget_target,
    {
        let selected = match &workspaces_output {
            Ok(list) => {
                proof {
                    lemma_first_found(
                        workspace_views(list@),
                        match &self.selected {
                            Some(w) => w.name@,
                            None => seq![],
                        },
                    );
                }
                let named = match &self.selected {
                    Some(w) => find_named(list, &w.name),
                    None => None,
                };
                match named {
                    Some(i) => Some(list[i].clone()),
                    None => initial_selection(&workspaces_output),
                }
            },
            Err(_) => None,
        };
        self.workspaces_output = workspaces_output;
        self.selected = selected;
    }

    /// The row of the selected workspace in the list.
    pub fn current_index(&self) -> (r: Option<usize>)
        ensures
            r matches Some(i) ==> index_of_selected(self.selected, self.workspaces_output) == Some(
                i as int,
            ),
            r is None ==> index_of_selected(self.selected, self.workspaces_output) is None,
    {
        match (&self.selected, &self.workspaces_output) {
            (Some(selected), Ok(list)) => find_named(list, &selected.name),
            _ => None,
        }
    }

    /// Moves the selection by `scroll` rows, kept within the list; with no row
    /// selected, selects the first. Returns whether the selection was set (and the
    /// details need to be shown again): whenever the list has rows.
    pub fn scroll_workspaces(&mut self, scroll: isize) -> (changed: bool)
        ensures
            scrolled(*old(self), *final(self), scroll as int, changed),
    {
        let idx = self.current_index();
        let next = match &self.workspaces_output {
            Ok(list) => {
                if list.len() == 0 {
                    return false;
                }
                proof {
                    if let Some(s) = &self.selected {
                        lemma_first_found(workspace_views(list@), s.name@);
                    }
                }
                match idx {
                    Some(i) => {
                        let moved = add_signed_saturating(i, scroll);
                        let k = if moved < list.len() - 1 {
                            moved
                        } else {
                            list.len() - 1
                        };
                        list[k].clone()
                    },
                    None => list[0].clone(),
                }
            },
            Err(_) => {
                return false;
            },
        };
        self.selected = Some(next);
        true
    }

    /// Opens the "Add workspace" popup, optionally based on a revision
    /// (passed on as `jj workspace add -r <revision>`), with the path field
    /// focused.
    pub fn open_add(&mut self, revision: Option<String>)
        ensures
            final(self).add == Some(AddPopup { focus: 0, revision, error: None }),
            same_list(*old(self), *final(self)),
            final(self).rename == old(self).rename,
    {
        self.add = Some(AddPopup { focus: 0, revision, error: None });
    }

    /// Handles an input event, given what the popups' fields hold (the add
    /// popup's path and name, the rename popup's name) and whether the forget
    /// confirmation dialog is open.
    ///
    /// An open add popup takes the keys, then an open rename popup takes every
    /// event; otherwise a key that is not a press is handled and ignored, an open
    /// confirmation dialog takes the keys (`q` and Esc close it), and other keys
    /// go first to the details panel and then to `key_input`. Mouse events go to
    /// the details panel; other events are handled and ignored.
    pub fn input(
        &mut self,
        event: InputEvent,
        add_path: &str,
        add_name: &str,
        rename_text: &str,
        forget_dialog_open: bool,
    ) -> (r: TabResponse)
        ensures
            old(self).add is Some && event is Key ==> add_popup_key(
                *old(self),
                *final(self),
                event->0,
                add_path@,
                add_name@,
                r,
            ),
            !(old(self).add is Some && event is Key) && old(self).rename is Some ==> rename_popup_event(
                *old(self),
                *final(self),
                event,
                rename_text@,
                r,
            ),
            !(old(self).add is Some && event is Key) && old(self).rename is None ==> {
                &&& *final(self) == *old(self)
                &&& match event {
                    InputEvent::Key(k) => if !k.press {
                        r is Handled
                    } else if forget_dialog_open {
                        if k.code == KeyCode::Char('q') || k.code == KeyCode::Esc {
                            r is CloseForgetDialog
                        } else {
                            r is ForgetDialogKey
                        }
                    } else {
                        r is OfferToDetails
                    },
                    InputEvent::Mouse => r is OfferMouseToDetails,
                    InputEvent::Other => r is Handled,
                }
            },
    {
        if self.add.is_some() {
            if let InputEvent::Key(key) = event {
                let mut add = self.add.take().unwrap();
                match key.code {
                    KeyCode::Tab => {
                        add.focus = if add.focus == 0 {
                            1
                        } else {
                            0
                        };
                        self.add = Some(add);
                        return TabResponse::Handled;
                    },
                    KeyCode::Esc => {
                        return TabResponse::Handled;
                    },
                    _ => {},
                }
                if save_key(key) {
                    let path = trim_chars(&chars_of(add_path));
                    let name = trim_chars(&chars_of(add_name));
                    if path.len() == 0 {
                        add.error = Some(String::from_str("Path cannot be empty"));
                        self.add = Some(add);
                        return TabResponse::Handled;
                    }
                    let name_opt = if name.len() == 0 {
                        None
                    } else {
                        Some(string_of(&name))
                    };
                    let revision = match &add.revision {
                        Some(r) => Some(r.clone()),
                        None => None,
                    };
                    self.add = Some(add);
                    return TabResponse::Run(
                        TabCommand::Add { path: string_of(&path), name: name_opt, revision },
                    );
                }
                let focus = add.focus;
                self.add = Some(add);
                return if focus == 0 {
                    TabResponse::EditAddPath
                } else {
                    TabResponse::EditAddName
                };
            }
        }
        if self.rename.is_some() {
            let mut rename = self.rename.take().unwrap();
            if let InputEvent::Key(key) = event {
                if save_key(key) {
                    let new_name = trim_chars(&chars_of(rename_text));
                    if new_name.len() == 0 {
                        rename.error = Some(String::from_str("Workspace name cannot be empty"));
                        self.rename = Some(rename);
                        return TabResponse::Handled;
                    }
                    let new_name = string_of(&new_name);
                    if new_name == rename.old_name {
                        return TabResponse::Handled;
                    }
                    self.rename = Some(rename);
                    return TabResponse::Run(TabCommand::Rename(new_name));
                }
                if let KeyCode::Esc = key.code {
                    return TabResponse::Handled;
                }
            }
            self.rename = Some(rename);
            return TabResponse::EditRename;
        }
        match event {
            InputEvent::Key(key) => {
                if !key.press {
                    return TabResponse::Handled;
                }
                if forget_dialog_open {
                    return match key.code {
                        KeyCode::Char('q') | KeyCode::Esc => TabResponse::CloseForgetDialog,
                        _ => TabResponse::ForgetDialogKey,
                    };
                }
                TabResponse::OfferToDetails
            },
            InputEvent::Mouse => TabResponse::OfferMouseToDetails,
            InputEvent::Other => TabResponse::Handled,
        }
    }
}

/// Whether `new` is `old` with the selection moved by `delta` rows (see
/// `scroll_workspaces`), and `changed` tells whether the selection was set.
pub open spec fn scrolled(old: WorkspacesTab, new: WorkspacesTab, delta: int, changed: bool) -> bool {
    &&& new.workspaces_output == old.workspaces_output
    &&& new.workspaces_height == old.workspaces_height
    &&& new.add == old.add
    &&& new.rename == old.rename
    &&& new.forget_target == old.forget_target
    &&& match old.workspaces_output {
        Ok(list) => if list@.len() > 0 {
            &&& changed
            &&& new.selected == Some(
                list@[match index_of_selected(old.selected, old.workspaces_output) {
                    Some(i) => scrolled_index(i, delta, list@.len() as int),
                    None => 0,
                }],
            )
        } else {
            !changed && new.selected == old.selected
        },
        Err(_) => !changed && new.selected == old.selected,
    }
}

/// The response to a scroll: show the details again when the selection was set.
pub open spec fn scroll_response(changed: bool, r: TabResponse) -> bool {
    if changed {
        r is SelectionChanged
    } else {
        r is Handled
    }
}

impl WorkspacesTab {
    /// Handles a key press that neither a popup nor the details panel took.
    ///
    /// `j`/Down and `k`/Up move the selection by a row, `J` and `K` by half the
    /// list's height; `R`/F5 refreshes; `a` opens the add popup; `f` asks to
    /// confirm forgetting the selected workspace (not the current one); `r` opens
    /// the rename popup for the current workspace (only it can be renamed);
    /// `s` runs `update-stale` in the current workspace (only there); Enter
    /// switches to the selected workspace; `?` shows the help. Other keys are not
    /// the tab's.
    pub fn key_input(&mut self, key: KeyEvent) -> (r: TabResponse)
        ensures
            (key.code == KeyCode::Char('j') || key.code == KeyCode::Down) ==> exists|c: bool|
                scrolled(*old(self), *final(self), 1, c) && scroll_response(c, r),
            (key.code == KeyCode::Char('k') || key.code == KeyCode::Up) ==> exists|c: bool|
                scrolled(*old(self), *final(self), -1, c) && scroll_response(c, r),
            key.code == KeyCode::Char('J') ==> exists|c: bool|
                scrolled(*old(self), *final(self), (old(self).workspaces_height / 2) as int, c)
                    && scroll_response(c, r),
            key.code == KeyCode::Char('K') ==> exists|c: bool|
                scrolled(*old(self), *final(self), -(old(self).workspaces_height / 2), c)
                    && scroll_response(c, r),
            (key.code == KeyCode::Char('R') || key.code == KeyCode::F(5)) ==> r is Refresh
                && *final(self) == *old(self),
            key.code == KeyCode::Char('a') ==> {
                &&& r is OpenAdd
                &&& final(self).add == Some(AddPopup { focus: 0, revision: None, error: None })
                &&& same_list(*old(self), *final(self))
                &&& final(self).rename == old(self).rename
            },
            key.code == KeyCode::Char('f') ==> match old(self).selected {
                None => r is Handled && *final(self) == *old(self),
                Some(w) => if w.is_current {
                    shows_message(r, "Forget"@, forget_current_message()) && *final(self)
                        == *old(self)
                } else {
                    &&& r matches TabResponse::OpenForgetDialog { name, root } && name == w.name
                        && root == w.root
                    &&& final(self).forget_target == Some(w.name)
                    &&& final(self).workspaces_output == old(self).workspaces_output
                    &&& final(self).workspaces_height == old(self).workspaces_height
                    &&& final(self).selected == old(self).selected
                    &&& final(self).add == old(self).add
                    &&& final(self).rename == old(self).rename
                },
            },
            key.code == KeyCode::Char('r') ==> match old(self).selected {
                None => r is Handled && *final(self) == *old(self),
                Some(w) => if !w.is_current {
                    shows_message(r, "Rename"@, rename_other_message()) && *final(self)
                        == *old(self)
                } else {
                    &&& r matches TabResponse::OpenRename(n) && n == w.name
                    &&& final(self).rename == Some(RenamePopup { old_name: w.name, error: None })
                    &&& same_list(*old(self), *final(self))
                    &&& final(self).add == old(self).add
                },
            },
            key.code == KeyCode::Char('s') ==> *final(self) == *old(self) && match old(self).selected {
                None => r is Handled,
                Some(w) => if !w.is_current {
                    shows_message(r, "Update stale"@, update_other_message())
                } else {
                    r matches TabResponse::Run(TabCommand::UpdateStale)
                },
            },
            key.code == KeyCode::Enter ==> *final(self) == *old(self) && match old(self).selected {
                None => r is Handled,
                Some(w) => r matches TabResponse::Action(ComponentAction::SwitchWorkspace(root))
                    && root == w.root,
            },
            key.code == KeyCode::Char('?') ==> {
                &&& *final(self) == *old(self)
                &&& r matches TabResponse::Action(ComponentAction::ShowHelp(p)) && pair_views(
                    p@.left_items,
                ) == help_items().0 && pair_views(p@.right_items) == help_items().1 && p@.scroll
                    == 0
            },
            !(key.code == KeyCode::Char('j') || key.code == KeyCode::Down || key.code
                == KeyCode::Char('k') || key.code == KeyCode::Up || key.code == KeyCode::Char('J')
                || key.code == KeyCode::Char('K') || key.code == KeyCode::Char('R') || key.code
                == KeyCode::F(5) || key.code == KeyCode::Char('a') || key.code == KeyCode::Char('f')
                || key.code == KeyCode::Char('r') || key.code == KeyCode::Char('s') || key.code
                == KeyCode::Enter || key.code == KeyCode::Char('?')) ==> r is NotHandled
                && *final(self) == *old(self),
    {
        let half = (self.workspaces_height / 2) as isize;
        let delta: Option<isize> = match key.code {
            KeyCode::Char('j') | KeyCode::Down => Some(1),
            KeyCode::Char('k') | KeyCode::Up => Some(-1),
            KeyCode::Char('J') => Some(half),
            KeyCode::Char('K') => Some(-half),
            _ => None,
        };
        if let Some(delta) = delta {
            let changed = self.scroll_workspaces(delta);
            let r = if changed {
                TabResponse::SelectionChanged
            } else {
                TabResponse::Handled
            };
            assert(scrolled(*old(self), *self, delta as int, changed) && scroll_response(changed, r));
            return r;
        }
        match key.code {
            KeyCode::Char('R') | KeyCode::F(5) => TabResponse::Refresh,
            KeyCode::Char('a') => {
                self.open_add(None);
                TabResponse::OpenAdd
            },
            KeyCode::Char('f') => match &self.selected {
                None => TabResponse::Handled,
                Some(w) => {
                    if w.is_current {
                        return message(
                            "Forget",
                            "Cannot forget the current workspace from inside it. Switch to another workspace first.",
                        );
                    }
                    let name = w.name.clone();
                    let root = w.root.clone();
                    self.forget_target = Some(w.name.clone());
                    TabResponse::OpenForgetDialog { name, root }
                },
            },
            KeyCode::Char('r') => match &self.selected {
                None => TabResponse::Handled,
                Some(w) => {
                    if !w.is_current {
                        return message(
                            "Rename",
                            "jj only renames the current workspace. Open lazyjj inside the workspace you want to rename.",
                        );
                    }
                    let name = w.name.clone();
                    self.rename = Some(RenamePopup { old_name: w.name.clone(), error: None });
                    TabResponse::OpenRename(name)
                },
            },
            KeyCode::Char('s') => match &self.selected {
                None => TabResponse::Handled,
                Some(w) => {
                    if !w.is_current {
                        return message(
                            "Update stale",
                            "update-stale runs inside the target workspace. Open lazyjj there first.",
                        );
                    }
                    TabResponse::Run(TabCommand::UpdateStale)
                },
            },
            KeyCode::Enter => match &self.selected {
                None => TabResponse::Handled,
                Some(w) => TabResponse::Action(ComponentAction::SwitchWorkspace(w.root.clone())),
            },
            KeyCode::Char('?') => TabResponse::Action(ComponentAction::ShowHelp(help_popup())),
            _ => TabResponse::NotHandled,
        }
    }

    /// Takes the outcome of a command that the tab asked for.
    ///
    /// An add or a rename that failed shows its error in its popup; one that
    /// succeeded closes the popup. A failed update-stale or forget shows its error
    /// in a message. Success asks for a refresh.
    pub fn command_finished(&mut self, command: &TabCommand, result: Result<(), CommandError>) -> (r:
        TabResponse)
        ensures
            same_list(*old(self), *final(self)),
            command is Add ==> final(self).rename == old(self).rename && match result {
                Ok(_) => r is Refresh && final(self).add is None,
                Err(e) => r is Handled && match old(self).add {
                    Some(a) => add_with_error(final(self).add, a, e.message@),
                    None => final(self).add is None,
                },
            },
            command is Rename ==> final(self).add == old(self).add && match result {
                Ok(_) => r is Refresh && final(self).rename is None,
                Err(e) => r is Handled && match old(self).rename {
                    Some(a) => rename_with_error(final(self).rename, a, e.message@),
                    None => final(self).rename is None,
                },
            },
            command is UpdateStale ==> *final(self) == *old(self) && match result {
                Ok(_) => r is Refresh,
                Err(e) => shows_message(r, "Update stale error"@, e.message@),
            },
            command is Forget ==> *final(self) == *old(self) && match result {
                Ok(_) => r is Refresh,
                Err(e) => shows_message(r, "Forget error"@, e.message@),
            },
    {
        match command {
            TabCommand::Add { .. } => match result {
                Ok(_) => {
                    self.add = None;
                    TabResponse::Refresh
                },
                Err(e) => {
                    if self.add.is_some() {
                        let mut add = self.add.take().unwrap();
                        add.error = Some(e.message);
                        self.add = Some(add);
                    }
                    TabResponse::Handled
                },
            },
            TabCommand::Rename(_) => match result {
                Ok(_) => {
                    self.rename = None;
                    TabResponse::Refresh
                },
                Err(e) => {
                    if self.rename.is_some() {
                        let mut rename = self.rename.take().unwrap();
                        rename.error = Some(e.message);
                        self.rename = Some(rename);
                    }
                    TabResponse::Handled
                },
            },
            TabCommand::UpdateStale => match result {
                Ok(_) => TabResponse::Refresh,
                Err(e) => message("Update stale error", e.message.as_str()),
            },
            TabCommand::Forget(_) => match result {
                Ok(_) => TabResponse::Refresh,
                Err(e) => message("Forget error", e.message.as_str()),
            },
        }
    }

    /// Takes the answer of a confirmation dialog: when the forget dialog was
    /// confirmed, the workspace to forget is taken and its forget command returned.
    pub fn forget_confirmed(&mut self, popup_id: u16, confirmed: Option<bool>) -> (c: Option<
        TabCommand,
    >)
        ensures
            final(self).workspaces_output == old(self).workspaces_output,
            final(self).workspaces_height == old(self).workspaces_height,
            final(self).selected == old(self).selected,
            final(self).add == old(self).add,
            final(self).rename == old(self).rename,
            (confirmed == Some(true) && popup_id == FORGET_POPUP_ID) ==> {
                &&& final(self).forget_target is None
                &&& match old(self).forget_target {
                    Some(name) => c == Some(TabCommand::Forget(name)),
                    None => c is None,
                }
            },
            !(confirmed == Some(true) && popup_id == FORGET_POPUP_ID) ==> c is None
                && final(self).forget_target == old(self).forget_target,
    {
        let yes = match confirmed {
            Some(b) => b,
            None => false,
        };
        if yes && popup_id == FORGET_POPUP_ID {
            match self.forget_target.take() {
                Some(name) => Some(TabCommand::Forget(name)),
                None => None,
            }
        } else {
            None
        }
    }
}

// ---------------------------------------------------------------------------
// What the tab shows

/// One row of the workspace list: the marker (" * " for the workspace lazyjj is
/// attached to), the name, the short change id, whether "(empty) " is shown,
/// the description, and whether the row is the selected one.
pub struct ListRow {
    pub marker: String,
    pub name: String,
    pub change_id: String,
    pub empty: bool,
    pub description: String,
    pub highlighted: bool,
}

/// What the workspace list shows.
pub enum ListContent {
    /// The listing has no workspace: the line " No workspaces".
    NoWorkspaces,
    /// One row per workspace, in the listing's order.
    Rows(Vec<ListRow>),
    /// The listing failed: these lines.
    Failed(Vec<String>),
}

/// Whether `row` shows workspace `w`, highlighted when `highlighted`.
pub open spec fn shows_workspace(row: ListRow, w: WorkspaceView, highlighted: bool) -> bool {
    &&& row.marker@ == (if w.is_current {
        " * "@
    } else {
        "   "@
    })
    &&& row.name@ == w.name
    &&& row.change_id@ == w.change_id_short
    &&& row.empty == w.empty
    &&& row.description@ == (if w.description.len() == 0 {
        "(no description)"@
    } else {
        w.description
    })
    &&& row.highlighted == highlighted
}

/// The lines shown when the listing failed with `message`.
pub open spec fn failure_lines(message: Seq<char>) -> Seq<Seq<char>> {
    seq!["Error getting workspaces"@, ""@] + lines(message)
}

/// Whether `c` is what the list shows of `output` with row `index` selected.
pub open spec fn list_shows(
    c: ListContent,
    output: Result<Vec<Workspace>, CommandError>,
    index: Option<int>,
) -> bool {
    match output {
        Ok(list) => if list@.len() == 0 {
            c is NoWorkspaces
        } else {
            &&& c is Rows
            &&& c->Rows_0@.len() == list@.len()
            &&& forall|i: int|
                0 <= i < list@.len() ==> shows_workspace(
                    #[trigger] c->Rows_0@[i],
                    list@[i]@,
                    index == Some(i),
                )
        },
        Err(e) => c is Failed && string_views(c->Failed_0@) == failure_lines(e.message@),
    }
}

/// The lines of `text`, each as a `String`.
fn text_lines(text: &str) -> (r: Vec<String>)
    ensures
        string_views(r@) == lines(text@),
{
    let parts = split_lines(&chars_of(text));
    let mut r: Vec<String> = Vec::new();
    let mut i: usize = 0;
    while i < parts.len()
        invariant
            i <= parts@.len(),
            r@.len() == i,
            string_views(r@) == views(parts@).take(i as int),
        decreases parts@.len() - i,
    {
        let ghost before = r@;
        let line = string_of(&parts[i]);
        r.push(line);
        assert(string_views(r@) =~= views(parts@).take(i + 1)) by {
            assert(r@ == before.push(line));
            assert(string_views(r@)[i as int] == line@);
            assert(views(parts@)[i as int] == parts@[i as int]@);
            assert forall|k: int| 0 <= k < i implies #[trigger] string_views(r@)[k] == string_views(
                before,
            )[k] by {}
        }
        i += 1;
    }
    assert(views(parts@).take(i as int) == views(parts@));
    r
}

/// The row that shows `w`.
fn row_of(w: &Workspace, highlighted: bool) -> (row: ListRow)
    ensures
        shows_workspace(row, w@, highlighted),
{
    let marker = if w.is_current {
        String::from_str(" * ")
    } else {
        String::from_str("   ")
    };
    let description = if w.description.as_str().unicode_len() == 0 {
        String::from_str("(no description)")
    } else {
        w.description.clone()
    };
    ListRow {
        marker,
        name: w.name.clone(),
        change_id: w.change_id_short.clone(),
        empty: w.empty,
        description,
        highlighted,
    }
}

/// The title of the details panel: the selected workspace's name, when one is
/// selected.
pub open spec fn details_title_text(selected: Option<Workspace>) -> Seq<char> {
    match selected {
        Some(w) => " Workspace "@ + w.name@ + " "@,
        None => " Workspace "@,
    }
}

/// The number of lines that the error `error` takes in a popup: its lines and a
/// rule above them, or nothing.
pub open spec fn error_height(error: Option<String>) -> int {
    match error {
        Some(e) => lines(e@).len() as int + 1,
        None => 0,
    }
}

/// The sizes of a popup as drawn: the lines of its error, the height of its
/// error area, and its height.
pub struct PopupSize {
    pub error_lines: Vec<String>,
    pub error_height: u16,
    pub height: u16,
}

/// The lines of an error shown in a popup, and the height they take.
fn error_area(error: &Option<String>) -> (r: (Vec<String>, usize))
    requires
        error_height(*error) <= u16::MAX,
    ensures
        r.1 == error_height(*error),
        match error {
            Some(e) => string_views(r.0@) == lines(e@),
            None => r.0@.len() == 0,
        },
{
    match error {
        Some(e) => {
            let ls = text_lines(e.as_str());
            let n = ls.len() + 1;
            (ls, n)
        },
        None => (Vec::new(), 0),
    }
}

impl WorkspacesTab {
    /// What the workspace list shows, with the selected workspace's row
    /// highlighted.
    pub fn list_content(&self) -> (c: ListContent)
        ensures
            list_shows(c, self.workspaces_output, index_of_selected(self.selected, self.workspaces_output)),
    {
        let idx = self.current_index();
        match &self.workspaces_output {
            Ok(list) => {
                if list.len() == 0 {
                    return ListContent::NoWorkspaces;
                }
                let mut rows: Vec<ListRow> = Vec::new();
                let mut i: usize = 0;
                while i < list.len()
                    invariant
                        i <= list@.len(),
                        rows@.len() == i,
                        idx matches Some(j) ==> index_of_selected(self.selected, self.workspaces_output) == Some(j as int),
                        idx is None ==> index_of_selected(self.selected, self.workspaces_output) is None,
                        self.workspaces_output == Ok::<Vec<Workspace>, CommandError>(*list),
                        forall|k: int|
                            0 <= k < i ==> shows_workspace(
                                #[trigger] rows@[k],
                                list@[k]@,
                                index_of_selected(self.selected, self.workspaces_output) == Some(k),
                            ),
                    decreases list@.len() - i,
                {
                    let highlighted = match idx {
                        Some(j) => j == i,
                        None => false,
                    };
                    let row = row_of(&list[i], highlighted);
                    rows.push(row);
                    i += 1;
                }
                ListContent::Rows(rows)
            },
            Err(e) => {
                let mut out = vec![
                    String::from_str("Error getting workspaces"),
                    String::from_str(""),
                ];
                let mut ls = text_lines(e.message.as_str());
                let ghost head = out@;
                let ghost tail = ls@;
                out.append(&mut ls);
                assert(string_views(out@) =~= failure_lines(e.message@)) by {
                    assert(out@ == head + tail);
                    assert forall|k: int| 0 <= k < out@.len() implies #[trigger] string_views(out@)[k]
                        == failure_lines(e.message@)[k] by {
                        if k >= 2 {
                            assert(out@[k] == tail[k - 2]);
                            assert(string_views(tail)[k - 2] == tail[k - 2]@);
                        }
                    }
                }
                ListContent::Failed(out)
            },
        }
    }

    /// Where the list's scrollbar stands: at the selected row (or the first)
    /// when the list has more lines than fit in its `height`; no scrollbar
    /// otherwise.
    pub fn scrollbar_position(&self, count: usize, height: u16) -> (r: Option<usize>)
        ensures
            count > height ==> r == Some(match index_of_selected(self.selected, self.workspaces_output) {
                Some(i) => i as usize,
                None => 0usize,
            }),
            count <= height ==> r is None,
    {
        if count > height as usize {
            match self.current_index() {
                Some(i) => Some(i),
                None => Some(0),
            }
        } else {
            None
        }
    }

    /// The title of the details panel.
    pub fn details_title(&self) -> (t: String)
        ensures
            t@ == details_title_text(self.selected),
    {
        let mut t = String::from_str(" Workspace ");
        if let Some(w) = &self.selected {
            t.append(w.name.as_str());
            t.append(" ");
        }
        t
    }

    /// The sizes of the add popup, when it is open: a line for the base
    /// revision when there is one, nine lines for the fields, labels, help and
    /// border, and the error's lines.
    pub fn add_popup_size(&self) -> (s: Option<PopupSize>)
        requires
            add_fits(self.add),
        ensures
            match self.add {
                Some(a) => s matches Some(p) && {
                    &&& p.error_height == error_height(a.error)
                    &&& p.height == 9 + (if a.revision is Some { 1int } else { 0 }) + error_height(a.error)
                    &&& match a.error {
                        Some(e) => string_views(p.error_lines@) == lines(e@),
                        None => p.error_lines@.len() == 0,
                    }
                },
                None => s is None,
            },
    {
        match &self.add {
            Some(a) => {
                let (error_lines, n) = error_area(&a.error);
                let revision_height: u16 = if a.revision.is_some() { 1 } else { 0 };
                let error_height = n as u16;
                Some(PopupSize { error_lines, error_height, height: 9 + revision_height + error_height })
            },
            None => None,
        }
    }

    /// The sizes of the rename popup, when it is open: five lines for the field,
    /// help and border, and the error's lines.
    pub fn rename_popup_size(&self) -> (s: Option<PopupSize>)
        requires
            rename_fits(self.rename),
        ensures
            match self.rename {
                Some(a) => s matches Some(p) && {
                    &&& p.error_height == error_height(a.error)
                    &&& p.height == 5 + error_height(a.error)
                    &&& match a.error {
                        Some(e) => string_views(p.error_lines@) == lines(e@),
                        None => p.error_lines@.len() == 0,
                    }
                },
                None => s is None,
            },
    {
        match &self.rename {
            Some(a) => {
                let (error_lines, n) = error_area(&a.error);
                let error_height = n as u16;
                Some(PopupSize { error_lines, error_height, height: 5 + error_height })
            },
            None => None,
        }
    }
}

/// The constraints of the tab's two panels: the list takes `percent` percent,
/// the details the rest.
pub open spec fn panel_constraints(percent: u16) -> Seq<LayoutConstraint> {
    seq![
        LayoutConstraint::Percentage(percent),
        LayoutConstraint::Percentage((100 - percent) as u16),
    ]
}

/// The rows of the add popup: the base revision (when there is one), the path's
/// label and field, the name's label and field, the error, and the help.
pub open spec fn add_popup_rows(revision_height: u16, error_height: u16) -> Seq<LayoutConstraint> {
    seq![
        LayoutConstraint::Length(revision_height),
        LayoutConstraint::Length(1),
        LayoutConstraint::Length(1),
        LayoutConstraint::Length(1),
        LayoutConstraint::Length(1),
        LayoutConstraint::Length(error_height),
        LayoutConstraint::Length(2),
    ]
}

/// The rows of the rename popup: the field taking what is left, the error, and
/// the help.
pub open spec fn rename_popup_rows(error_height: u16) -> Seq<LayoutConstraint> {
    seq![
        LayoutConstraint::Fill(1),
        LayoutConstraint::Length(error_height),
        LayoutConstraint::Length(2),
    ]
}

/// Where a popup is drawn: its area, the area inside its border, and its rows.
pub struct PopupAreas {
    pub popup: Rect,
    pub inner: Rect,
    pub rows: Vec<Rect>,
}

/// Whether `p` is a popup of `height` lines and `percent` percent of the width
/// of `area`, centered in it, whose inside is split into `rows`.
pub open spec fn popup_laid_out(
    p: PopupAreas,
    area: Rect,
    percent: u16,
    height: u16,
    rows: Seq<LayoutConstraint>,
) -> bool {
    &&& p.popup == centered_lines_rect(area, percent, height)
    &&& p.inner == bordered_inner(p.popup, 0)
    &&& p.rows@.len() == rows.len()
    &&& forall|i: int|
        0 <= i < rows.len() ==> split_part(#[trigger] p.rows@[i], p.inner, LayoutDirection::Vertical)
    &&& lengths_fit(rows, p.inner.height as int) ==> forall|i: int|
        0 <= i < rows.len() ==> #[trigger] p.rows@[i] == length_part(
            p.inner,
            LayoutDirection::Vertical,
            rows,
            i,
        )
}

/// Lays a popup out in `area`.
fn popup_areas(area: Rect, percent: u16, height: u16, rows: Vec<LayoutConstraint>) -> (p: PopupAreas)
    requires
        percent <= 100,
    ensures
        popup_laid_out(p, area, percent, height, rows@),
{
    let popup = centered_rect_line_height(area, percent, height);
    let inner = block_inner(popup, 0);
    let parts = split_area(inner, LayoutDirection::Vertical, &rows);
    PopupAreas { popup, inner, rows: parts }
}

impl WorkspacesTab {
    /// The areas of the list and of the details: `area` split in `direction`,
    /// the list taking `percent` percent. Records the number of rows inside the
    /// list's border, by which `J` and `K` scroll.
    pub fn panel_areas(&mut self, area: Rect, direction: LayoutDirection, percent: u16) -> (r: (
        Rect,
        Rect,
    ))
        requires
            percent <= 100,
        ensures
            r.0 == percent_part(area, direction, panel_constraints(percent), 0),
            r.1 == percent_part(area, direction, panel_constraints(percent), 1),
            final(self).workspaces_height == bordered_inner(r.0, 0).height,
            final(self).workspaces_output == old(self).workspaces_output,
            final(self).selected == old(self).selected,
            final(self).add == old(self).add,
            final(self).rename == old(self).rename,
            final(self).forget_target == old(self).forget_target,
    {
        let rest = 100 - percent;
        let constraints = vec![LayoutConstraint::Percentage(percent), LayoutConstraint::Percentage(rest)];
        proof {
            let cs = constraints@;
            assert(cs == panel_constraints(percent));
            assert(crate::ui::utils::percent_sum(cs, 0) == 0);
            assert(crate::ui::utils::percent_sum(cs, 1) == percent);
            assert(crate::ui::utils::percent_sum(cs, 2) == 100);
            assert(percentages_fit(cs));
        }
        let parts = split_area(area, direction, &constraints);
        let list = parts[0];
        let details = parts[1];
        self.workspaces_height = block_inner(list, 0).height;
        (list, details)
    }

    /// Where the add popup is drawn in `area`, when it is open: `add_popup_size`'s
    /// height and half the width, centered, its inside split into its rows.
    pub fn add_popup_areas(&self, area: Rect) -> (r: Option<PopupAreas>)
        requires
            add_fits(self.add),
        ensures
            match self.add {
                Some(a) => r matches Some(p) && popup_laid_out(
                    p,
                    area,
                    50,
                    (9 + (if a.revision is Some { 1int } else { 0 }) + error_height(a.error)) as u16,
                    add_popup_rows(
                        (if a.revision is Some { 1int } else { 0 }) as u16,
                        error_height(a.error) as u16,
                    ),
                ),
                None => r is None,
            },
    {
        match self.add_popup_size() {
            Some(size) => {
                let revision_height: u16 = match &self.add {
                    Some(a) => if a.revision.is_some() {
                        1
                    } else {
                        0
                    },
                    None => 0,
                };
                let rows = vec![
                    LayoutConstraint::Length(revision_height),
                    LayoutConstraint::Length(1),
                    LayoutConstraint::Length(1),
                    LayoutConstraint::Length(1),
                    LayoutConstraint::Length(1),
                    LayoutConstraint::Length(size.error_height),
                    LayoutConstraint::Length(2),
                ];
                Some(popup_areas(area, 50, size.height, rows))
            },
            None => None,
        }
    }

    /// Where the rename popup is drawn in `area`, when it is open:
    /// `rename_popup_size`'s height and 30 percent of the width, centered, its
    /// inside split into its rows.
    pub fn rename_popup_areas(&self, area: Rect) -> (r: Option<PopupAreas>)
        requires
            rename_fits(self.rename),
        ensures
            match self.rename {
                Some(a) => r matches Some(p) && popup_laid_out(
                    p,
                    area,
                    30,
                    (5 + error_height(a.error)) as u16,
                    rename_popup_rows(error_height(a.error) as u16),
                ),
                None => r is None,
            },
    {
        match self.rename_popup_size() {
            Some(size) => {
                let rows = vec![
                    LayoutConstraint::Fill(1),
                    LayoutConstraint::Length(size.error_height),
                    LayoutConstraint::Length(2),
                ];
                Some(popup_areas(area, 30, size.height, rows))
            },
            None => None,
        }
    }
}

/// The add popup's sizes fit in a `u16`.
pub open spec fn add_fits(add: Option<AddPopup>) -> bool {
    add matches Some(a) ==> 9 + 1 + error_height(a.error) <= u16::MAX
}

/// The rename popup's sizes fit in a `u16`.
pub open spec fn rename_fits(rename: Option<RenamePopup>) -> bool {
    rename matches Some(a) ==> 5 + error_height(a.error) <= u16::MAX
}

/// After a refresh, a workspace with the name selected before is selected again
/// when the new list has one; otherwise the current workspace, when there is
/// one; and whatever is selected is in the list.
pub proof fn lemma_reselect(ws: Seq<WorkspaceView>, previous: Option<Seq<char>>)
    ensures
        reselect_index(ws, previous) is Some ==> 0 <= reselect_index(ws, previous)->0 < ws.len(),
        (previous is Some && exists|j: int| 0 <= j < ws.len() && ws[j].name == previous->0)
            ==> (reselect_index(ws, previous) is Some && ws[reselect_index(ws, previous)->0].name
            == previous->0),
        ((previous is None || first_named(ws, previous->0) is None) && exists|j: int|
            0 <= j < ws.len() && ws[j].is_current) ==> (reselect_index(ws, previous) is Some
            && ws[reselect_index(ws, previous)->0].is_current),
        ws.len() > 0 ==> reselect_index(ws, previous) is Some,
{
    lemma_first_found(ws, match previous {
        Some(n) => n,
        None => seq![],
    });
}

/// A scroll from row `i` by `delta` rows lands on `i + delta`, clamped to the
/// rows of the list: before the first row it stops at the first, past the last
/// at the last. So `K` with half a page of `h` rows from row `i` lands on
/// `max(i - h, 0)`, and `J` on `min(i + h, len - 1)`.
pub proof fn lemma_scrolled_index_clamps(i: int, delta: int, len: int)
    requires
        0 <= i < len <= usize::MAX,
    ensures
        scrolled_index(i, delta, len) == (if i + delta < 0 {
            0
        } else if i + delta > len - 1 {
            len - 1
        } else {
            i + delta
        }),
{
}

/// A scroll lands on a row of the list.
pub proof fn lemma_scrolled_index_in_list(i: int, delta: int, len: int)
    requires
        len > 0,
    ensures
        0 <= scrolled_index(i, delta, len) < len,
{
}

} // verus!
