use lazyjj::commander::workspaces::Workspace;
use lazyjj::commander::CommandError;
use lazyjj::ui::help_popup::HelpPopup;
use lazyjj::ui::utils::{
    centered_rect, centered_rect_fixed, centered_rect_line_height, tabs_to_spaces, tint_git_diff,
    DiffLineKind, LayoutDirection, Rect,
};
use lazyjj::ui::workspaces_tab::{
    default_workspace_path_prefix, details_command, render_details, ListContent, RenamePopup, TabCommand, TabResponse,
    WorkspacesTab,
    FORGET_POPUP_ID,
};
use lazyjj::ui::{ComponentAction, ComponentInputResult, InputEvent, KeyCode, KeyEvent};

fn rect(x: u16, y: u16, width: u16, height: u16) -> Rect {
    Rect {
        x,
        y,
        width,
        height,
    }
}

#[test]
fn tabs_align_to_stops_of_four() {
    assert_eq!(tabs_to_spaces("\tx"), "    x");
    assert_eq!(tabs_to_spaces("ab\tc"), "ab  c");
    assert_eq!(tabs_to_spaces("abcd\te"), "abcd    e");
    assert_eq!(tabs_to_spaces("a\nb\tc"), "a\nb   c");
    assert_eq!(tabs_to_spaces("a\r\tb"), "a\r    b");
    assert_eq!(tabs_to_spaces(""), "");
}

#[test]
fn tabs_skip_escape_sequences() {
    // The color sequence takes no columns.
    assert_eq!(tabs_to_spaces("\x1b[31mab\tc"), "\x1b[31mab  c");
    // A tab inside an escape sequence is kept.
    assert_eq!(tabs_to_spaces("\x1b\ta\tb"), "\x1b\ta   b");
    assert_eq!(tabs_to_spaces("\x1b[1;\t2m\tx"), "\x1b[1;\t2m    x");
}

#[test]
fn text_without_tabs_is_unchanged() {
    let s = "plain \x1b[0m text\nwith lines";
    assert_eq!(tabs_to_spaces(s), s);
}

#[test]
fn centered_rect_fixed_centers_and_clamps() {
    assert_eq!(centered_rect_fixed(rect(0, 0, 100, 50), 20, 10), rect(40, 20, 20, 10));
    assert_eq!(centered_rect_fixed(rect(5, 5, 10, 4), 20, 10), rect(5, 5, 10, 4));
    assert_eq!(centered_rect_fixed(rect(1, 2, 11, 5), 4, 2), rect(4, 3, 4, 2));
}

#[test]
fn centered_rect_by_percent() {
    let r = centered_rect(rect(0, 0, 100, 100), 50, 20);
    assert_eq!(r, rect(25, 40, 50, 20));
    let r = centered_rect_line_height(rect(0, 0, 100, 30), 30, 10);
    assert_eq!(r.height, 10);
    assert_eq!(r.y, 10);
    assert_eq!(r.width, 30);
}

#[test]
fn tint_git_diff_counts_and_drops_headers() {
    let lines: Vec<String> = vec![
        "diff --git a/f b/f",
        "index 123..456 100644",
        "--- a/f",
        "+++ b/f",
        "@@ -1,2 +1,2 @@",
        " same",
        "-old",
        "+new",
        "+more",
        "",
    ]
    .into_iter()
    .map(String::from)
    .collect();
    let t = tint_git_diff(&lines);
    assert_eq!(
        t.tints,
        vec![
            None,
            None,
            Some(DiffLineKind::Untouched),
            Some(DiffLineKind::Untouched),
            Some(DiffLineKind::Untouched),
            Some(DiffLineKind::Context),
            Some(DiffLineKind::Removed),
            Some(DiffLineKind::Added),
            Some(DiffLineKind::Added),
            Some(DiffLineKind::Untouched),
        ]
    );
    assert_eq!(t.added, 2);
    assert_eq!(t.removed, 1);
    assert_eq!(t.summary, Some(("+2".to_string(), "-1".to_string())));
}

#[test]
fn tint_git_diff_without_changes_has_no_summary() {
    let lines: Vec<String> = vec![" a".to_string(), "@@".to_string()];
    let t = tint_git_diff(&lines);
    assert_eq!(t.added, 0);
    assert_eq!(t.removed, 0);
    assert!(t.summary.is_none());
}

fn pairs(v: &[(&str, &str)]) -> Vec<(String, String)> {
    v.iter()
        .map(|(a, b)| (a.to_string(), b.to_string()))
        .collect()
}

fn key(code: KeyCode) -> InputEvent {
    InputEvent::Key(KeyEvent {
        code,
        press: true,
        control: false,
    })
}

#[test]
fn help_popup_widths_and_size() {
    let left = pairs(&[("j/k", "scroll"), ("Enter", "switch")]);
    let right = pairs(&[("é", "x")]);
    assert_eq!(HelpPopup::column_width(&left), 5 + 2 + 6);
    // Widths count bytes: "é" is two.
    assert_eq!(HelpPopup::column_width(&right), 2 + 2 + 1);
    assert_eq!(HelpPopup::column_width(&[]), 2);
    let p = HelpPopup::new(left, right);
    assert_eq!(p.desired_size(), (13 + 2 + 5 + 2, 2 + 1 + 2));
    assert_eq!(p.key_column_width(&p.left_items), 7);
}

#[test]
fn help_popup_scrolls_within_bounds() {
    let items = pairs(&[("a", "1"), ("b", "2"), ("c", "3"), ("d", "4")]);
    let mut p = HelpPopup::new(items, vec![]);
    p.set_height(2);
    assert!(matches!(p.input(key(KeyCode::Char('j'))), ComponentInputResult::Handled));
    assert_eq!(p.scroll(), 1);
    p.input(key(KeyCode::Char('j')));
    p.input(key(KeyCode::Char('j')));
    assert_eq!(p.scroll(), 2);
    assert_eq!(p.key_column_width(&p.left_items), 3);
    p.input(key(KeyCode::Char('k')));
    assert_eq!(p.scroll(), 1);
    p.input(key(KeyCode::Char('k')));
    p.input(key(KeyCode::Char('k')));
    assert_eq!(p.scroll(), 0);
    assert!(matches!(p.input(key(KeyCode::Char('x'))), ComponentInputResult::NotHandled));
    let release = InputEvent::Key(KeyEvent {
        code: KeyCode::Char('j'),
        press: false,
        control: false,
    });
    assert!(matches!(p.input(release), ComponentInputResult::NotHandled));
    assert!(matches!(p.input(InputEvent::Mouse), ComponentInputResult::NotHandled));
}

fn ws(name: &str, current: bool) -> Workspace {
    Workspace {
        name: name.into(),
        change_id_short: "chg".into(),
        commit_id_short: "cmt".into(),
        empty: false,
        description: String::new(),
        root: format!("/w/{name}"),
        is_current: current,
    }
}

#[test]
fn tab_selects_current_then_keeps_name() {
    let tab = WorkspacesTab::new(Ok(vec![ws("a", false), ws("b", true), ws("c", false)]));
    assert_eq!(tab.selected.as_ref().unwrap().name, "b");
    assert_eq!(tab.current_index(), Some(1));

    let mut tab = WorkspacesTab::new(Ok(vec![ws("a", false), ws("c", false)]));
    assert_eq!(tab.selected.as_ref().unwrap().name, "a");
    tab.scroll_workspaces(1);
    assert_eq!(tab.selected.as_ref().unwrap().name, "c");
    tab.refresh(Ok(vec![ws("x", true), ws("c", false)]));
    assert_eq!(tab.selected.as_ref().unwrap().name, "c");
    tab.refresh(Ok(vec![ws("x", false), ws("y", true)]));
    assert_eq!(tab.selected.as_ref().unwrap().name, "y");
    tab.refresh(Err(CommandError {
        message: "e".into(),
    }));
    assert!(tab.selected.is_none());
    assert_eq!(tab.current_index(), None);
}

#[test]
fn tab_scroll_clamps() {
    let mut tab = WorkspacesTab::new(Ok(vec![ws("a", true), ws("b", false), ws("c", false)]));
    assert!(tab.scroll_workspaces(10));
    assert_eq!(tab.current_index(), Some(2));
    assert!(tab.scroll_workspaces(-1));
    assert_eq!(tab.current_index(), Some(1));
    assert!(tab.scroll_workspaces(isize::MIN));
    assert_eq!(tab.current_index(), Some(0));
    let mut empty = WorkspacesTab::new(Ok(vec![]));
    assert!(!empty.scroll_workspaces(1));
    assert!(empty.selected.is_none());
}

#[test]
fn tab_keys() {
    let mut tab = WorkspacesTab::new(Ok(vec![ws("a", true), ws("b", false)]));
    tab.workspaces_height = 4;
    let press = |code| KeyEvent {
        code,
        press: true,
        control: false,
    };
    assert!(matches!(tab.key_input(press(KeyCode::Char('J'))), TabResponse::SelectionChanged));
    assert_eq!(tab.current_index(), Some(1));
    assert!(matches!(tab.key_input(press(KeyCode::Up)), TabResponse::SelectionChanged));
    assert_eq!(tab.current_index(), Some(0));
    // The current workspace cannot be forgotten.
    match tab.key_input(press(KeyCode::Char('f'))) {
        TabResponse::Action(ComponentAction::ShowMessage { title, .. }) => {
            assert_eq!(title, "Forget")
        }
        _ => panic!("expected a message"),
    }
    // Only the current workspace can be renamed.
    assert!(matches!(tab.key_input(press(KeyCode::Char('r'))), TabResponse::OpenRename(n) if n == "a"));
    assert_eq!(tab.rename.as_ref().unwrap().old_name, "a");
    tab.rename = None;
    assert!(matches!(tab.key_input(press(KeyCode::Char('s'))), TabResponse::Run(TabCommand::UpdateStale)));
    assert!(matches!(
        tab.key_input(press(KeyCode::Enter)),
        TabResponse::Action(ComponentAction::SwitchWorkspace(r)) if r == "/w/a"
    ));
    tab.key_input(press(KeyCode::Down));
    match tab.key_input(press(KeyCode::Char('f'))) {
        TabResponse::OpenForgetDialog { name, root } => {
            assert_eq!(name, "b");
            assert_eq!(root, "/w/b");
        }
        _ => panic!("expected the forget dialog"),
    }
    assert_eq!(tab.forget_target.as_deref(), Some("b"));
    assert!(tab.forget_confirmed(FORGET_POPUP_ID + 1, Some(true)).is_none());
    assert!(tab.forget_confirmed(FORGET_POPUP_ID, Some(false)).is_none());
    assert!(matches!(
        tab.forget_confirmed(FORGET_POPUP_ID, Some(true)),
        Some(TabCommand::Forget(n)) if n == "b"
    ));
    assert!(tab.forget_target.is_none());
    match tab.key_input(press(KeyCode::Char('r'))) {
        TabResponse::Action(ComponentAction::ShowMessage { title, .. }) => {
            assert_eq!(title, "Rename")
        }
        _ => panic!("expected a message"),
    }
    assert!(matches!(tab.key_input(press(KeyCode::Char('R'))), TabResponse::Refresh));
    assert!(matches!(tab.key_input(press(KeyCode::F(5))), TabResponse::Refresh));
    assert!(matches!(tab.key_input(press(KeyCode::Char('z'))), TabResponse::NotHandled));
    match tab.key_input(press(KeyCode::Char('?'))) {
        TabResponse::Action(ComponentAction::ShowHelp(p)) => {
            assert_eq!(p.left_items.len(), 8);
            assert_eq!(p.right_items[3].0, "Ctrl+w");
        }
        _ => panic!("expected the help"),
    }
}

#[test]
fn tab_add_popup() {
    let mut tab = WorkspacesTab::new(Ok(vec![ws("a", true)]));
    let press = |code, control| {
        InputEvent::Key(KeyEvent {
            code,
            press: true,
            control,
        })
    };
    assert!(matches!(tab.key_input(KeyEvent { code: KeyCode::Char('a'), press: true, control: false }), TabResponse::OpenAdd));
    assert!(matches!(tab.input(press(KeyCode::Char('x'), false), "", "", "", false), TabResponse::EditAddPath));
    assert!(matches!(tab.input(press(KeyCode::Tab, false), "", "", "", false), TabResponse::Handled));
    assert!(matches!(tab.input(press(KeyCode::Char('x'), false), "", "", "", false), TabResponse::EditAddName));
    // An empty path is refused.
    assert!(matches!(tab.input(press(KeyCode::Enter, false), "  ", "n", "", false), TabResponse::Handled));
    assert_eq!(tab.add.as_ref().unwrap().error.as_deref(), Some("Path cannot be empty"));
    match tab.input(press(KeyCode::Char('s'), true), " /p ", "  ", "", false) {
        TabResponse::Run(TabCommand::Add { path, name, revision }) => {
            assert_eq!(path, "/p");
            assert!(name.is_none());
            assert!(revision.is_none());
        }
        _ => panic!("expected the add command"),
    }
    let cmd = TabCommand::Add {
        path: "/p".into(),
        name: None,
        revision: None,
    };
    let err = CommandError {
        message: "exists".into(),
    };
    assert!(matches!(tab.command_finished(&cmd, Err(err)), TabResponse::Handled));
    assert_eq!(tab.add.as_ref().unwrap().error.as_deref(), Some("exists"));
    assert!(matches!(tab.command_finished(&cmd, Ok(())), TabResponse::Refresh));
    assert!(tab.add.is_none());
    tab.open_add(Some("rev".into()));
    assert!(matches!(tab.input(press(KeyCode::Esc, false), "", "", "", false), TabResponse::Handled));
    assert!(tab.add.is_none());
}

#[test]
fn tab_rename_popup_and_dialog() {
    let mut tab = WorkspacesTab::new(Ok(vec![ws("a", true)]));
    let press = |code| {
        InputEvent::Key(KeyEvent {
            code,
            press: true,
            control: false,
        })
    };
    tab.key_input(KeyEvent {
        code: KeyCode::Char('r'),
        press: true,
        control: false,
    });
    assert!(matches!(tab.input(press(KeyCode::Enter), "", "", " ", false), TabResponse::Handled));
    assert_eq!(
        tab.rename.as_ref().unwrap().error.as_deref(),
        Some("Workspace name cannot be empty")
    );
    assert!(matches!(tab.input(InputEvent::Mouse, "", "", "", false), TabResponse::EditRename));
    assert!(matches!(
        tab.input(press(KeyCode::Enter), "", "", " b ", false),
        TabResponse::Run(TabCommand::Rename(n)) if n == "b"
    ));
    // Saving the same name just closes the popup.
    assert!(matches!(tab.input(press(KeyCode::Enter), "", "", "a", false), TabResponse::Handled));
    assert!(tab.rename.is_none());
    // The dialog takes the keys while it is open.
    assert!(matches!(tab.input(press(KeyCode::Char('y')), "", "", "", true), TabResponse::ForgetDialogKey));
    assert!(matches!(tab.input(press(KeyCode::Char('q')), "", "", "", true), TabResponse::CloseForgetDialog));
    assert!(matches!(tab.input(press(KeyCode::Char('j')), "", "", "", false), TabResponse::OfferToDetails));
    assert!(matches!(tab.input(InputEvent::Mouse, "", "", "", false), TabResponse::OfferMouseToDetails));
    let release = InputEvent::Key(KeyEvent {
        code: KeyCode::Char('j'),
        press: false,
        control: false,
    });
    assert!(matches!(tab.input(release, "", "", "", false), TabResponse::Handled));
}

#[test]
fn details_for_a_workspace() {
    let w = ws("extra", false);
    let c = details_command(&w);
    assert_eq!(
        c.args,
        vec!["log", "--no-graph", "-r", "extra@", "--template", "builtin_log_detailed"]
    );
    let text = render_details(&w, Ok("a\tb\n".into())).unwrap();
    assert_eq!(text, "Workspace : extra\nRoot      : /w/extra\n\na   b\n");
    assert!(render_details(&w, Err(CommandError { message: "e".into() })).is_err());
}

#[test]
fn list_rows_show_workspaces() {
    let mut other = ws("b", false);
    other.empty = true;
    other.description = "fix it".into();
    let tab = WorkspacesTab::new(Ok(vec![ws("a", true), other]));
    match tab.list_content() {
        ListContent::Rows(rows) => {
            assert_eq!(rows.len(), 2);
            assert_eq!(rows[0].marker, " * ");
            assert_eq!(rows[0].name, "a");
            assert_eq!(rows[0].change_id, "chg");
            assert!(!rows[0].empty);
            assert_eq!(rows[0].description, "(no description)");
            assert!(rows[0].highlighted);
            assert_eq!(rows[1].marker, "   ");
            assert!(rows[1].empty);
            assert_eq!(rows[1].description, "fix it");
            assert!(!rows[1].highlighted);
        }
        _ => panic!("expected rows"),
    }
    assert_eq!(tab.scrollbar_position(2, 1), Some(0));
    assert_eq!(tab.scrollbar_position(2, 2), None);
    assert_eq!(tab.details_title(), " Workspace a ");
}

#[test]
fn list_without_workspaces_or_with_an_error() {
    let tab = WorkspacesTab::new(Ok(vec![]));
    assert!(matches!(tab.list_content(), ListContent::NoWorkspaces));
    assert_eq!(tab.details_title(), " Workspace ");
    let tab = WorkspacesTab::new(Err(CommandError {
        message: "no repo\nhere\r\n".into(),
    }));
    match tab.list_content() {
        ListContent::Failed(lines) => {
            assert_eq!(lines, vec!["Error getting workspaces", "", "no repo", "here"]);
        }
        _ => panic!("expected the error"),
    }
    assert_eq!(tab.scrollbar_position(4, 2), Some(0));
}

#[test]
fn popup_sizes_grow_with_the_error() {
    let mut tab = WorkspacesTab::new(Ok(vec![ws("a", true)]));
    assert!(tab.add_popup_size().is_none());
    tab.open_add(None);
    let size = tab.add_popup_size().unwrap();
    assert_eq!((size.error_height, size.height), (0, 9));
    tab.open_add(Some("rev".into()));
    tab.add.as_mut().unwrap().error = Some("one\ntwo".into());
    let size = tab.add_popup_size().unwrap();
    assert_eq!(size.error_lines, vec!["one", "two"]);
    assert_eq!((size.error_height, size.height), (3, 13));

    assert!(tab.rename_popup_size().is_none());
    tab.rename = Some(RenamePopup {
        old_name: "a".into(),
        error: Some("bad".into()),
    });
    let size = tab.rename_popup_size().unwrap();
    assert_eq!(size.error_lines, vec!["bad"]);
    assert_eq!((size.error_height, size.height), (2, 7));
}

#[test]
fn default_path_prefix_expands_home() {
    assert_eq!(
        default_workspace_path_prefix(Some("/home/me".into())),
        "/home/me/Development/app-mobile-"
    );
    assert_eq!(default_workspace_path_prefix(None), "~/Development/app-mobile-");
}

#[test]
fn tab_expansion_is_idempotent() {
    for s in ["a\tb", "\x1b\ta\tb", "\x1b[1;\t2m\tx", "ab\r\tc\n\t\td", "\x1b[3"] {
        let once = tabs_to_spaces(s);
        assert_eq!(tabs_to_spaces(&once), once);
    }
}

#[test]
fn centered_rects_lie_within_their_area() {
    let area = rect(3, 4, 37, 21);
    for (px, py) in [(0, 0), (30, 70), (100, 100), (50, 1)] {
        let r = centered_rect(area, px, py);
        assert!(area.x <= r.x && r.x + r.width <= area.x + area.width);
        assert!(area.y <= r.y && r.y + r.height <= area.y + area.height);
    }
    for lines in [0, 5, 21, 100] {
        let r = centered_rect_line_height(area, 40, lines);
        assert!(area.x <= r.x && r.x + r.width <= area.x + area.width);
        assert!(area.y <= r.y && r.y + r.height <= area.y + area.height);
    }
}

#[test]
fn centered_rects_round_each_bound() {
    // 21 rows, 15% before: 3.15 -> 3; 85%: 17.85 -> 18. 37 columns, 35%: 12.95 -> 13;
    // 65%: 24.05 -> 24.
    assert_eq!(centered_rect(rect(3, 4, 37, 21), 30, 70), rect(16, 7, 11, 15));
    // An odd percentage: 33% before (12.21 -> 12) and 66% (24.42 -> 24).
    assert_eq!(centered_rect(rect(3, 4, 37, 21), 33, 100), rect(15, 4, 12, 21));
    // 15 rows left over around 6: 8 above, 7 below.
    assert_eq!(centered_rect_line_height(rect(3, 4, 37, 21), 100, 6), rect(3, 12, 37, 6));
    // More lines than rows: all of them.
    assert_eq!(centered_rect_line_height(rect(3, 4, 37, 21), 100, 100), rect(3, 4, 37, 21));
    assert_eq!(centered_rect_line_height(rect(0, 0, 10, 10), 100, 0), rect(0, 5, 10, 0));
}

#[test]
fn panels_split_by_percent_and_record_the_list_height() {
    let mut tab = WorkspacesTab::new(Ok(vec![ws("a", true)]));
    let (list, details) = tab.panel_areas(rect(0, 0, 81, 30), LayoutDirection::Horizontal, 50);
    // 40.5 columns round up to 41.
    assert_eq!(list, rect(0, 0, 41, 30));
    assert_eq!(details, rect(41, 0, 40, 30));
    assert_eq!(tab.workspaces_height, 28);
    let (list, details) = tab.panel_areas(rect(0, 0, 80, 30), LayoutDirection::Vertical, 30);
    assert_eq!(list, rect(0, 0, 80, 9));
    assert_eq!(details, rect(0, 9, 80, 21));
    assert_eq!(tab.workspaces_height, 7);
}

#[test]
fn popups_are_laid_out_row_by_row() {
    let mut tab = WorkspacesTab::new(Ok(vec![ws("a", true)]));
    assert!(tab.add_popup_areas(rect(0, 0, 100, 40)).is_none());
    tab.open_add(Some("rev".into()));
    let areas = tab.add_popup_areas(rect(0, 0, 100, 40)).unwrap();
    // 10 lines in 40 rows: 15 above; half of 100 columns, 25 on each side.
    assert_eq!(areas.popup, rect(25, 15, 50, 10));
    assert_eq!(areas.inner, rect(26, 16, 48, 8));
    let heights: Vec<u16> = areas.rows.iter().map(|r| r.height).collect();
    assert_eq!(heights, vec![1, 1, 1, 1, 1, 0, 2]);
    assert_eq!(areas.rows[6].y, 21);

    tab.rename = Some(RenamePopup {
        old_name: "a".into(),
        error: Some("bad".into()),
    });
    let areas = tab.rename_popup_areas(rect(0, 0, 100, 40)).unwrap();
    assert_eq!(areas.popup, rect(35, 17, 30, 7));
    let heights: Vec<u16> = areas.rows.iter().map(|r| r.height).collect();
    assert_eq!(heights, vec![1, 2, 2]);
}

#[test]
fn help_popup_layout_centers_and_splits() {
    let mut p = HelpPopup::new(pairs(&[("ab", "cdef")]), pairs(&[("x", "yz")]));
    let areas = p.layout(rect(0, 0, 40, 20));
    // Width 2 + 2 + 4 = 8, gap 2, 1 + 2 + 2 = 5, border 2: 17; height 1 + 1 + 2 = 4.
    assert_eq!(areas.popup, rect(11, 8, 17, 4));
    assert_eq!(areas.inner, rect(13, 9, 13, 2));
    assert_eq!(areas.left, rect(13, 9, 8, 2));
    assert_eq!(areas.right, rect(23, 9, 3, 2));
}

fn round_cells(hundredths: u32) -> u32 {
    (hundredths + 50) / 100
}

#[test]
fn centered_rects_follow_the_rounding_rule_across_sizes() {
    for (x, y) in [(0u16, 0u16), (7, 3)] {
        for size in [0u16, 1, 2, 7, 10, 21, 33, 80, 101, 199] {
            let area = rect(x, y, size, size);
            let n = size as u32;
            for p in [0u16, 1, 25, 30, 33, 50, 67, 70, 99, 100] {
                let side = ((100 - p) / 2) as u32;
                let begin = round_cells(n * side);
                let end = round_cells(n * (side + p as u32));
                let r = centered_rect(area, p, p);
                assert_eq!(
                    r,
                    rect(
                        x + begin as u16,
                        y + begin as u16,
                        (end - begin) as u16,
                        (end - begin) as u16
                    ),
                    "size {size}, percent {p}"
                );
            }
            for lines in [0u16, 1, 2, 5, 20, 200] {
                let r = centered_rect_line_height(area, 100, lines);
                let (top, height) = if lines <= size {
                    ((size - lines + 1) / 2, lines)
                } else {
                    (0, size)
                };
                assert_eq!(r, rect(x, y + top, size, height), "size {size}, lines {lines}");
            }
        }
    }
}
