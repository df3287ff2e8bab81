//! Action synthesizer: turns one control request into the ordered
//! window-manager commands that carry it out.
//!
//! A request is processed in phases: the action token is parsed, the
//! target workspace is resolved (from the focused output for a toggle,
//! from a chosen title otherwise), the primary commands are issued,
//! then the focused workspace is promoted (except after a bare send)
//! and the whole re-fetched set is renumbered.  Every phase here is a
//! pure decision from a snapshot to commands; running the commands and
//! re-fetching the set between phases is the caller's part.

use vstd::prelude::*;
use crate::codec::encode;
use crate::codec::spec_encode;
use crate::strutil::join_strings;
use crate::strutil::spec_join;
use crate::strutil::spec_trim;
use crate::strutil::str_eq;
use crate::strutil::trimmed;
use crate::workspace::Query;
use crate::workspace::Workspaces;
use crate::workspace::WorkspaceView;
use crate::workspace::find_from;
use crate::workspace::spec_rename_cmd;
use crate::workspace::title_of;

verus! {

/// The four actions a control request may ask for.
#[derive(Clone, Copy, Debug, PartialEq, Eq, Structural)]
pub enum Action {
    /// Switch focus to the target workspace.
    GoTo,
    /// Move the focused container away to the target workspace.
    SendTo,
    /// Move the focused container to the target workspace and follow it.
    BringTo,
    /// Switch to the second workspace on the focused output.
    Toggle,
}

/// Why a request could not be planned.
#[derive(Clone, Copy, Debug, PartialEq, Eq, Structural)]
pub enum PlanError {
    /// The control token is not one of the known actions.
    UnrecognizedAction,
    /// No workspace reports focus, though the action needs one.
    NoFocusedWorkspace,
    /// No second workspace shares the focused output to toggle to.
    NoSecondWorkspaceOnOutput,
}

/// Which action a control token names, or a protocol error.
pub open spec fn spec_parse_action(t: Seq<char>) -> Result<Action, PlanError> {
    if t == "go_to"@ {
        Ok(Action::GoTo)
    } else if t == "send_to"@ {
        Ok(Action::SendTo)
    } else if t == "bring_to"@ {
        Ok(Action::BringTo)
    } else if t == "toggle"@ {
        Ok(Action::Toggle)
    } else {
        Err(PlanError::UnrecognizedAction)
    }
}

/// Parses a control token; any token but the four known ones is a
/// protocol error and leads to no command at all.
pub fn parse_action(token: &str) -> (r: Result<Action, PlanError>)
    ensures
        r == spec_parse_action(token@),
{
    if str_eq(token, "go_to") {
        Ok(Action::GoTo)
    } else if str_eq(token, "send_to") {
        Ok(Action::SendTo)
    } else if str_eq(token, "bring_to") {
        Ok(Action::BringTo)
    } else if str_eq(token, "toggle") {
        Ok(Action::Toggle)
    } else {
        Err(PlanError::UnrecognizedAction)
    }
}

/// Command that switches focus to the workspace named `name`.
pub open spec fn spec_go_to_cmd(name: Seq<char>) -> Seq<char> {
    "workspace \""@ + name + "\""@
}

/// Command that moves the focused container to the workspace named `name`.
pub open spec fn spec_send_to_cmd(name: Seq<char>) -> Seq<char> {
    "move container to workspace \""@ + name + "\""@
}

/// The window-manager command that switches to workspace `name`.
pub fn go_to(name: &str) -> (r: String)
    ensures
        r@ == spec_go_to_cmd(name@),
{
    let mut s = String::from_str("workspace \"");
    s.append(name);
    s.append("\"");
    s
}

/// The window-manager command that sends the focused container to
/// workspace `name`.
pub fn send_to(name: &str) -> (r: String)
    ensures
        r@ == spec_send_to_cmd(name@),
{
    let mut s = String::from_str("move container to workspace \"");
    s.append(name);
    s.append("\"");
    s
}

/// The primary commands of each action against a resolved target: a
/// bring moves the container first and follows it second, so that
/// focus lands on the moved container.
pub open spec fn spec_primary_cmds(action: Action, target: Seq<char>) -> Seq<Seq<char>> {
    match action {
        Action::GoTo => seq![spec_go_to_cmd(target)],
        Action::Toggle => seq![spec_go_to_cmd(target)],
        Action::SendTo => seq![spec_send_to_cmd(target)],
        Action::BringTo => seq![spec_send_to_cmd(target), spec_go_to_cmd(target)],
    }
}

/// The ordered primary commands for `action` against `target`.
pub fn primary_commands(action: Action, target: &str) -> (r: Vec<String>)
    ensures
        r.deep_view() == spec_primary_cmds(action, target@),
{
    let mut cmds: Vec<String> = Vec::new();
    match action {
        Action::GoTo => cmds.push(go_to(target)),
        Action::Toggle => cmds.push(go_to(target)),
        Action::SendTo => cmds.push(send_to(target)),
        Action::BringTo => {
            cmds.push(send_to(target));
            cmds.push(go_to(target));
        },
    }
    proof {
        assert(cmds.deep_view() =~= spec_primary_cmds(action, target@));
    }
    cmds
}

/// The toggle target: the raw identifier of the second workspace, in
/// set order, on the output of the focused workspace; an error when no
/// workspace is focused or no second one shares that output.
pub open spec fn spec_toggle_target(s: Seq<WorkspaceView>) -> Result<Seq<char>, PlanError> {
    match find_from(s, Query::Focused, 0) {
        None => Err(PlanError::NoFocusedWorkspace),
        Some(i) => match find_from(s, Query::Output(s[i].output), 0) {
            None => Err(PlanError::NoSecondWorkspaceOnOutput),
            Some(j) => match find_from(s, Query::Output(s[i].output), j + 1) {
                None => Err(PlanError::NoSecondWorkspaceOnOutput),
                Some(k) => Ok(s[k].name),
            },
        },
    }
}

/// Resolves the target of a toggle request.
pub fn resolve_toggle_target(set: &Workspaces) -> (r: Result<String, PlanError>)
    ensures
        match spec_toggle_target(set@) {
            Ok(n) => r matches Ok(name) && name@ == n,
            Err(e) => r matches Err(e2) && e2 == e,
        },
{
    let focused = match set.get_wp_with_focus() {
        Some(wp) => wp,
        None => {
            return Err(PlanError::NoFocusedWorkspace);
        },
    };
    let out = focused.output.clone();
    match set.get_second_wp_with_output(out.as_str()) {
        Some(wp) => Ok(wp.name.clone()),
        None => Err(PlanError::NoSecondWorkspaceOnOutput),
    }
}

/// The target for an action with a chosen title: the identifier of the
/// first workspace already carrying that title, or a fresh identifier
/// built from the next unused slot number and the title itself.
pub open spec fn spec_chosen_target(s: Seq<WorkspaceView>, title: Seq<char>) -> Seq<char> {
    match find_from(s, Query::Title(title), 0) {
        Some(i) => s[i].name,
        None => spec_encode(s.len() as int + 1, title),
    }
}

/// Resolves the target of a go-to, send-to or bring-to request from
/// the title the user chose.
pub fn resolve_chosen_target(set: &Workspaces, title: &str) -> (r: String)
    requires
        set.workspaces@.len() < usize::MAX,
    ensures
        r@ == spec_chosen_target(set@, title@),
{
    proof {
        assert(set@.len() == set.workspaces@.len());
    }
    match set.get_wp_with_title(title) {
        Some(wp) => wp.name.clone(),
        None => encode(set.next_unused_number() as u64, title),
    }
}

/// The title the user chose in the picker: its reply with surrounding
/// whitespace removed, or nothing when the trimmed reply is empty,
/// which means the user cancelled and the request is a no-op.
pub fn chosen_title(raw: &str) -> (r: Option<String>)
    ensures
        match r {
            Some(t) => spec_trim(raw@).len() > 0 && t@ == spec_trim(raw@),
            None => spec_trim(raw@).len() == 0,
        },
{
    let t = trimmed(raw);
    if t.as_str().is_empty() {
        None
    } else {
        Some(t)
    }
}

/// The promotion commands due after the primary commands ran: the
/// workspace now holding focus is renamed to `"0:<title>"` so it sorts
/// first, except after a bare send, which does not move focus.
pub open spec fn spec_promote_cmds(s: Seq<WorkspaceView>, action: Action) -> Seq<Seq<char>> {
    if action == Action::SendTo {
        Seq::empty()
    } else {
        match find_from(s, Query::Focused, 0) {
            Some(i) => seq![spec_rename_cmd(s[i].name, spec_encode(0, title_of(s[i])))],
            None => Seq::empty(),
        }
    }
}

/// The promotion commands for the re-fetched set after `action`'s
/// primary commands ran.
pub fn promote_commands(set: &Workspaces, action: Action) -> (r: Vec<String>)
    ensures
        r.deep_view() == spec_promote_cmds(set@, action),
{
    let mut cmds: Vec<String> = Vec::new();
    let is_send = match action {
        Action::SendTo => true,
        _ => false,
    };
    if !is_send {
        if let Some(wp) = set.get_wp_with_focus() {
            cmds.push(wp.promote());
        }
    }
    proof {
        assert(cmds.deep_view() =~= spec_promote_cmds(set@, action));
    }
    cmds
}

/// One transport batch: the commands joined with `"; "`, submitted to
/// the window manager as a single request that applies them in order.
pub fn command_batch(cmds: &Vec<String>) -> (r: String)
    ensures
        r@ == spec_join(cmds.deep_view(), "; "@),
{
    join_strings(cmds, "; ")
}

} // verus!
