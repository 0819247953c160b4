use lazyjj::commander::workspaces::{
    parse_workspace_line, ListingStep, Workspace, WorkspaceListing,
};
use lazyjj::commander::{command_status, CommandError, Commander, JjCommand};

fn commander() -> Commander {
    Commander {
        root: "/tmp/repo".into(),
    }
}

fn error(message: &str) -> CommandError {
    CommandError {
        message: message.into(),
    }
}

/// Runs a listing to its end, answering each `jj` command with `answer`.
fn list(
    answer: &dyn Fn(&[String]) -> Result<String, CommandError>,
) -> (Result<Vec<Workspace>, CommandError>, Vec<Vec<String>>) {
    let (mut listing, first): (WorkspaceListing, JjCommand) = commander().get_workspaces();
    let mut commands = vec![first.args.clone()];
    let mut out = answer(&first.args);
    loop {
        match listing.step(out) {
            ListingStep::Done(r) => return (r, commands),
            ListingStep::Run(c) => {
                commands.push(c.args.clone());
                out = answer(&c.args);
            }
        }
    }
}

/// What `jj` prints in a freshly initialized repository at `/tmp/repo`.
fn fresh_repo(args: &[String]) -> Result<String, CommandError> {
    match args[1].as_str() {
        "list" => Ok("[default|qpvuntsm|230dd059|true|]\n".into()),
        "root" => Ok("/tmp/repo\n".into()),
        _ => Err(error("unexpected")),
    }
}

#[test]
fn get_workspaces_default_only() {
    let (workspaces, _) = list(&fresh_repo);
    let workspaces = workspaces.unwrap();
    assert_eq!(workspaces.len(), 1);
    assert_eq!(workspaces[0].name, "default");
    assert!(workspaces[0].is_current);
}

#[test]
fn listing_runs_the_expected_commands() {
    let (_, commands) = list(&fresh_repo);
    assert_eq!(commands.len(), 3);
    assert_eq!(&commands[0][..3], &["workspace", "list", "-T"]);
    assert!(commands[0][3].starts_with("\"[\" ++ name ++ \"|\""));
    assert_eq!(commands[1], vec!["workspace", "root"]);
    assert_eq!(commands[2], vec!["workspace", "root", "--name", "default"]);
}

#[test]
fn listing_two_workspaces() {
    let answer = |args: &[String]| -> Result<String, CommandError> {
        match (args[1].as_str(), args.get(3).map(|s| s.as_str())) {
            ("list", _) => Ok(
                "[default|aaa|111|false|First line]\nnoise\n[extra|bbb|222|true|a|b]c]\n".into(),
            ),
            ("root", None) => Ok("/w/default\r\n".into()),
            ("root", Some("default")) => Ok("/w/default\n".into()),
            ("root", Some("extra")) => Err(error("no such workspace")),
            _ => Err(error("unexpected")),
        }
    };
    let (workspaces, _) = list(&answer);
    let workspaces = workspaces.unwrap();
    assert_eq!(workspaces.len(), 2);
    assert_eq!(workspaces[0].name, "default");
    assert_eq!(workspaces[0].change_id_short, "aaa");
    assert_eq!(workspaces[0].commit_id_short, "111");
    assert!(!workspaces[0].empty);
    assert_eq!(workspaces[0].description, "First line");
    assert_eq!(workspaces[0].root, "/w/default");
    assert!(workspaces[0].is_current);
    assert_eq!(workspaces[1].name, "extra");
    assert!(workspaces[1].empty);
    assert_eq!(workspaces[1].description, "a|b]c");
    assert_eq!(workspaces[1].root, "");
    assert!(!workspaces[1].is_current);
    let current_count = workspaces.iter().filter(|w| w.is_current).count();
    assert_eq!(current_count, 1, "exactly one workspace is current");
}

#[test]
fn listing_error_is_passed_on() {
    let (workspaces, commands) = list(&|_| Err(error("jj failed")));
    assert_eq!(workspaces.unwrap_err().message, "jj failed");
    assert_eq!(commands.len(), 1);
}

#[test]
fn no_current_root_means_nothing_is_current() {
    let answer = |args: &[String]| -> Result<String, CommandError> {
        match (args[1].as_str(), args.len()) {
            ("list", _) => Ok("[a|x|y|false|]\n".into()),
            ("root", 2) => Err(error("not in a workspace")),
            _ => Ok("/w/a\n".into()),
        }
    };
    let (workspaces, _) = list(&answer);
    let workspaces = workspaces.unwrap();
    assert_eq!(workspaces.len(), 1);
    assert!(!workspaces[0].is_current);
}

#[test]
fn empty_listing_has_no_workspaces() {
    let answer = |args: &[String]| -> Result<String, CommandError> {
        match args[1].as_str() {
            "list" => Ok("".into()),
            _ => Ok("/w\n".into()),
        }
    };
    let (workspaces, commands) = list(&answer);
    assert!(workspaces.unwrap().is_empty());
    assert_eq!(commands.len(), 2);
}

#[test]
fn workspace_line_grammar() {
    let parse = |s: &str| parse_workspace_line(&s.chars().collect());
    let e = parse("[n|c|i|true|d]").unwrap();
    assert_eq!(e.name, "n");
    assert_eq!(e.change_id_short, "c");
    assert_eq!(e.commit_id_short, "i");
    assert!(e.empty);
    assert_eq!(e.description, "d");
    let e = parse("[|||TRUE|]").unwrap();
    assert_eq!(e.name, "");
    assert!(!e.empty);
    assert!(parse("[n|c|i|true]").is_none());
    assert!(parse("n|c|i|true|d]").is_none());
    assert!(parse("[n|c|i|true|d").is_none());
    assert!(parse("[n|c|i|true|d\nx]").is_none());
    assert!(parse("[").is_none());
    assert!(parse("").is_none());
}

fn workspace(name: &str, commit: &str, root: &str) -> Workspace {
    Workspace {
        name: name.into(),
        change_id_short: "c".into(),
        commit_id_short: commit.into(),
        empty: false,
        description: String::new(),
        root: root.into(),
        is_current: false,
    }
}

#[test]
fn workspace_root_for_commit_matches_prefix() {
    let c = commander();
    let ws = vec![
        workspace("a", "", "/a"),
        workspace("b", "12ab", "/b"),
        workspace("c", "12", "/c"),
    ];
    assert_eq!(
        c.get_workspace_root_for_commit(Ok(ws.clone()), "12abcdef").unwrap(),
        Some("/b".to_string())
    );
    assert_eq!(
        c.get_workspace_root_for_commit(Ok(ws.clone()), "12ffff").unwrap(),
        Some("/c".to_string())
    );
    assert_eq!(c.get_workspace_root_for_commit(Ok(ws), "99").unwrap(), None);
    assert_eq!(
        c.get_workspace_root_for_commit(Err(error("x")), "12").unwrap_err().message,
        "x"
    );
}

#[test]
fn workspace_commands() {
    let c = commander();
    let root = c.get_workspace_root(Some("extra"));
    assert_eq!(root.args, vec!["workspace", "root", "--name", "extra"]);
    assert!(!root.color && root.quiet);
    let add = c.run_workspace_add("/tmp/x", Some("extra"), Some("abc"));
    assert_eq!(
        add.args,
        vec!["workspace", "add", "--name", "extra", "-r", "abc", "/tmp/x"]
    );
    assert!(add.color && add.quiet);
    let add = c.run_workspace_add("/tmp/x", None, None);
    assert_eq!(add.args, vec!["workspace", "add", "/tmp/x"]);
    let forget = c.run_workspace_forget("extra");
    assert_eq!(forget.args, vec!["workspace", "forget", "extra"]);
    let rename = c.run_workspace_rename("new");
    assert_eq!(rename.args, vec!["workspace", "rename", "new"]);
    let stale = c.run_workspace_update_stale();
    assert_eq!(stale.args, vec!["workspace", "update-stale"]);
}

#[test]
fn workspace_root_from_output_strips_line_end() {
    assert_eq!(
        Commander::workspace_root_from_output(Ok("/a/b\r\n".into())).unwrap(),
        "/a/b"
    );
    assert_eq!(
        Commander::workspace_root_from_output(Ok("/a/b\n\n".into())).unwrap(),
        "/a/b\n"
    );
    assert_eq!(Commander::workspace_root_from_output(Ok("/a".into())).unwrap(), "/a");
    assert!(Commander::workspace_root_from_output(Err(error("e"))).is_err());
    assert!(command_status(Ok("anything".into())).is_ok());
    assert_eq!(command_status(Err(error("e"))).unwrap_err().message, "e");
}
