use fluidspaces::go_to;
use fluidspaces::send_to;
use fluidspaces::plan::chosen_title;
use fluidspaces::plan::command_batch;
use fluidspaces::plan::parse_action;
use fluidspaces::plan::primary_commands;
use fluidspaces::plan::promote_commands;
use fluidspaces::plan::resolve_chosen_target;
use fluidspaces::plan::resolve_toggle_target;
use fluidspaces::plan::Action;
use fluidspaces::plan::PlanError;
use fluidspaces::workspace::Workspace;
use fluidspaces::workspace::Workspaces;

fn wp(name: &str, num: i32, output: &str, focused: bool) -> Workspace {
    Workspace {
        name: String::from(name),
        num,
        output: String::from(output),
        focused,
    }
}

#[test]
fn parses_known_actions() {
    assert_eq!(parse_action("go_to"), Ok(Action::GoTo));
    assert_eq!(parse_action("send_to"), Ok(Action::SendTo));
    assert_eq!(parse_action("bring_to"), Ok(Action::BringTo));
    assert_eq!(parse_action("toggle"), Ok(Action::Toggle));
}

#[test]
fn rejects_unknown_tokens() {
    assert_eq!(parse_action("delete_all"), Err(PlanError::UnrecognizedAction));
    assert_eq!(parse_action(""), Err(PlanError::UnrecognizedAction));
    assert_eq!(parse_action("GO_TO"), Err(PlanError::UnrecognizedAction));
}

#[test]
fn command_strings() {
    assert_eq!(go_to("3:gamma"), "workspace \"3:gamma\"");
    assert_eq!(
        send_to("2:chat"),
        "move container to workspace \"2:chat\""
    );
}

#[test]
fn primary_commands_per_action() {
    assert_eq!(
        primary_commands(Action::GoTo, "1:a"),
        vec![String::from("workspace \"1:a\"")]
    );
    assert_eq!(
        primary_commands(Action::Toggle, "1:a"),
        vec![String::from("workspace \"1:a\"")]
    );
    assert_eq!(
        primary_commands(Action::SendTo, "1:a"),
        vec![String::from("move container to workspace \"1:a\"")]
    );
}

#[test]
fn bring_to_moves_then_follows() {
    assert_eq!(
        primary_commands(Action::BringTo, "1:a"),
        vec![
            String::from("move container to workspace \"1:a\""),
            String::from("workspace \"1:a\""),
        ]
    );
}

#[test]
fn toggle_resolves_second_on_focused_output() {
    let set = Workspaces {
        workspaces: vec![
            wp("1:work", 1, "A", true),
            wp("2:chat", 2, "A", false),
            wp("3:mail", 3, "B", false),
        ],
    };
    assert_eq!(resolve_toggle_target(&set), Ok(String::from("2:chat")));
}

#[test]
fn toggle_needs_a_focused_workspace() {
    let set = Workspaces {
        workspaces: vec![wp("1:work", 1, "A", false)],
    };
    assert_eq!(
        resolve_toggle_target(&set),
        Err(PlanError::NoFocusedWorkspace)
    );
}

#[test]
fn toggle_needs_a_second_workspace_on_the_output() {
    let set = Workspaces {
        workspaces: vec![
            wp("1:work", 1, "A", true),
            wp("2:mail", 2, "B", false),
        ],
    };
    assert_eq!(
        resolve_toggle_target(&set),
        Err(PlanError::NoSecondWorkspaceOnOutput)
    );
}

#[test]
fn chosen_target_prefers_existing_workspace() {
    let set = Workspaces {
        workspaces: vec![wp("1:alpha", 1, "A", true), wp("2:beta", 2, "A", false)],
    };
    assert_eq!(resolve_chosen_target(&set, "beta"), "2:beta");
}

#[test]
fn chosen_target_synthesizes_fresh_identifier() {
    let set = Workspaces {
        workspaces: vec![wp("1:alpha", 1, "A", true), wp("2:beta", 2, "A", false)],
    };
    assert_eq!(resolve_chosen_target(&set, "gamma"), "3:gamma");
}

#[test]
fn chosen_title_trims_the_reply() {
    assert_eq!(chosen_title(" gamma\n"), Some(String::from("gamma")));
    assert_eq!(chosen_title("gamma"), Some(String::from("gamma")));
}

#[test]
fn empty_reply_means_cancelled() {
    assert_eq!(chosen_title(""), None);
    assert_eq!(chosen_title(" \n"), None);
}

#[test]
fn promotion_targets_the_focused_workspace() {
    let set = Workspaces {
        workspaces: vec![
            wp("1:alpha", 1, "A", false),
            wp("3:gamma", 3, "A", true),
        ],
    };
    assert_eq!(
        promote_commands(&set, Action::GoTo),
        vec![String::from(
            "rename workspace \"3:gamma\" to \"0:gamma\""
        )]
    );
}

#[test]
fn bare_send_does_not_promote() {
    let set = Workspaces {
        workspaces: vec![wp("1:alpha", 1, "A", true)],
    };
    assert_eq!(promote_commands(&set, Action::SendTo), Vec::<String>::new());
}

#[test]
fn no_focus_no_promotion() {
    let set = Workspaces {
        workspaces: vec![wp("1:alpha", 1, "A", false)],
    };
    assert_eq!(promote_commands(&set, Action::GoTo), Vec::<String>::new());
}

#[test]
fn batches_join_with_semicolons() {
    let cmds = vec![
        String::from("move container to workspace \"1:a\""),
        String::from("workspace \"1:a\""),
    ];
    assert_eq!(
        command_batch(&cmds),
        "move container to workspace \"1:a\"; workspace \"1:a\""
    );
    assert_eq!(command_batch(&Vec::new()), "");
}

#[test]
fn scenario_go_to_fresh_title() {
    // A request for a title no workspace carries: the target is
    // synthesized, the switch creates it, promotion and renumbering
    // then walk it to the front.
    let set = Workspaces {
        workspaces: vec![wp("1:alpha", 1, "A", true), wp("2:beta", 2, "A", false)],
    };
    assert_eq!(parse_action("go_to"), Ok(Action::GoTo));
    let target = resolve_chosen_target(&set, "gamma");
    assert_eq!(target, "3:gamma");
    assert_eq!(
        primary_commands(Action::GoTo, &target),
        vec![String::from("workspace \"3:gamma\"")]
    );
    // The window manager now reports the new workspace focused.
    let refetched = Workspaces {
        workspaces: vec![
            wp("1:alpha", 1, "A", false),
            wp("2:beta", 2, "A", false),
            wp("3:gamma", 3, "A", true),
        ],
    };
    assert_eq!(
        promote_commands(&refetched, Action::GoTo),
        vec![String::from(
            "rename workspace \"3:gamma\" to \"0:gamma\""
        )]
    );
    // After the promotion the promoted workspace sorts first.
    let promoted = Workspaces {
        workspaces: vec![
            wp("0:gamma", 0, "A", true),
            wp("1:alpha", 1, "A", false),
            wp("2:beta", 2, "A", false),
        ],
    };
    assert_eq!(
        promoted.fixup_wps(),
        vec![
            String::from("rename workspace \"0:gamma\" to \"1:gamma\""),
            String::from("rename workspace \"1:alpha\" to \"2:alpha\""),
            String::from("rename workspace \"2:beta\" to \"3:beta\""),
        ]
    );
}

#[test]
fn scenario_toggle() {
    // Toggling switches to the second workspace on the focused output,
    // then promotes it and renumbers.
    let set = Workspaces {
        workspaces: vec![wp("1:work", 1, "A", true), wp("2:chat", 2, "A", false)],
    };
    assert_eq!(parse_action("toggle"), Ok(Action::Toggle));
    let target = resolve_toggle_target(&set).unwrap();
    assert_eq!(target, "2:chat");
    assert_eq!(
        primary_commands(Action::Toggle, &target),
        vec![String::from("workspace \"2:chat\"")]
    );
    let refetched = Workspaces {
        workspaces: vec![wp("1:work", 1, "A", false), wp("2:chat", 2, "A", true)],
    };
    assert_eq!(
        promote_commands(&refetched, Action::Toggle),
        vec![String::from("rename workspace \"2:chat\" to \"0:chat\"")]
    );
    let promoted = Workspaces {
        workspaces: vec![wp("0:chat", 0, "A", true), wp("1:work", 1, "A", false)],
    };
    assert_eq!(
        promoted.fixup_wps(),
        vec![
            String::from("rename workspace \"0:chat\" to \"1:chat\""),
            String::from("rename workspace \"1:work\" to \"2:work\""),
        ]
    );
}

#[test]
fn scenario_protocol_error_issues_no_commands() {
    // An unknown control token is a protocol error; the request aborts
    // before any command is synthesized.
    assert_eq!(parse_action("delete_all"), Err(PlanError::UnrecognizedAction));
}
