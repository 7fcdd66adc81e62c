use dualpane::action::Action;
use dualpane::panel_item::PanelItem;
use dualpane::state::State;
use dualpane::state_store::{
    apply_cmd_result, reduce, CmdOutput, CmdRequest, Effect, PanelPosition, PopupType,
};

fn listing(paths: &[(&str, bool)]) -> Vec<PanelItem> {
    paths
        .iter()
        .map(|(p, d)| PanelItem::new(String::from(*p), *d))
        .collect()
}

fn fresh_state(path: &str, entries: &[(&str, bool)]) -> State {
    State::new(String::from(path), listing(entries))
}

fn ok_output() -> CmdOutput {
    CmdOutput { success: true, stderr: String::new() }
}

fn failed_output(stderr: &str) -> CmdOutput {
    CmdOutput { success: false, stderr: String::from(stderr) }
}

#[test]
fn new_state_mirrors_the_scan_into_both_panels() {
    let st = fresh_state("/a", &[("/a/x", false), ("/a/d", true)]);
    assert!(st.l_panel.active);
    assert!(!st.r_panel.active);
    assert_eq!(st.l_panel.path, "/a");
    assert_eq!(st.r_panel.path, "/a");
    assert_eq!(st.l_panel.index, 0);
    assert_eq!(st.l_panel.items.len(), 3);
    assert_eq!(st.r_panel.items.len(), 3);
    assert_eq!(st.popup_msg, "");
    assert!(st.popup_next_action.is_none());
}

#[test]
fn switch_tabs_keeps_exactly_one_panel_active() {
    let mut st = fresh_state("/a", &[("/a/x", false)]);
    let eff = reduce(&mut st, Action::SwitchTabs);
    assert!(matches!(eff, Effect::Done));
    assert!(!st.l_panel.active && st.r_panel.active);
    let eff = reduce(&mut st, Action::SwitchTabs);
    assert!(matches!(eff, Effect::Done));
    assert!(st.l_panel.active && !st.r_panel.active);
}

#[test]
fn advance_snaps_to_last_instead_of_wrapping() {
    // five entries, selection on the last one
    let mut st = fresh_state(
        "/a",
        &[("/a/1", false), ("/a/2", false), ("/a/3", false), ("/a/4", false)],
    );
    assert_eq!(st.l_panel.items.len(), 5);
    for _ in 0..4 {
        reduce(&mut st, Action::FileItemDown(1));
    }
    assert_eq!(st.l_panel.index, 4);
    reduce(&mut st, Action::FileItemDown(1));
    assert_eq!(st.l_panel.index, 4);
}

#[test]
fn advance_saturates_on_huge_step_counts() {
    let mut st = fresh_state(
        "/a",
        &[("/a/1", false), ("/a/2", false), ("/a/3", false), ("/a/4", false)],
    );
    reduce(&mut st, Action::FileItemDown(usize::MAX));
    assert_eq!(st.l_panel.index, 4);
}

#[test]
fn retreat_stops_at_the_top() {
    let mut st = fresh_state("/a", &[("/a/1", false), ("/a/2", false)]);
    reduce(&mut st, Action::FileItemUp(1));
    assert_eq!(st.l_panel.index, 0);
    reduce(&mut st, Action::FileItemDown(2));
    assert_eq!(st.l_panel.index, 2);
    reduce(&mut st, Action::FileItemUp(5));
    assert_eq!(st.l_panel.index, 0);
}

#[test]
fn navigation_touches_the_active_panel_only() {
    let mut st = fresh_state("/a", &[("/a/1", false), ("/a/2", false)]);
    reduce(&mut st, Action::SwitchTabs);
    reduce(&mut st, Action::FileItemDown(1));
    assert_eq!(st.l_panel.index, 0);
    assert_eq!(st.r_panel.index, 1);
}

#[test]
fn cd_pushes_and_rescans_the_active_panel() {
    let mut st = fresh_state("/a", &[("/a/subdir", true)]);
    let eff = reduce(&mut st, Action::Cd(String::from("subdir")));
    assert!(matches!(eff, Effect::Rescan(PanelPosition::L)));
    assert_eq!(st.l_panel.path, "/a/subdir");
    assert_eq!(st.l_panel.index, 0);
    st.reload(PanelPosition::L, listing(&[("/a/subdir/f", false)]));
    assert_eq!(st.l_panel.items.len(), 2);
    assert_eq!(st.l_panel.items[1].display_string(), "/a/subdir/f");
    assert_eq!(st.r_panel.path, "/a");
}

#[test]
fn cd_to_parent_normalizes_the_path() {
    let mut st = fresh_state("/a/b", &[]);
    reduce(&mut st, Action::Cd(String::from("..")));
    assert_eq!(st.l_panel.path, "/a");
}

#[test]
fn reload_keeps_the_selection_index_unclamped() {
    let mut st = fresh_state(
        "/a",
        &[("/a/1", false), ("/a/2", false), ("/a/3", false), ("/a/4", false)],
    );
    reduce(&mut st, Action::FileItemDown(4));
    assert_eq!(st.l_panel.index, 4);
    st.reload(PanelPosition::L, listing(&[]));
    assert_eq!(st.l_panel.items.len(), 1);
    assert_eq!(st.l_panel.index, 4);
}

#[test]
fn mkdir_input_opens_an_input_popup_with_pending_action() {
    let mut st = fresh_state("/a", &[]);
    let eff = reduce(&mut st, Action::MkDirInput);
    assert!(matches!(eff, Effect::Done));
    assert_eq!(st.popup_msg, "Create directory:");
    assert_eq!(st.popup_type, PopupType::Input);
    assert!(matches!(st.popup_next_action, Some(Action::MkDir)));
    assert_ne!(st.popup_type, PopupType::Error);
}

#[test]
fn mkdir_builds_the_target_from_path_and_input() {
    let mut st = fresh_state("/a", &[]);
    reduce(&mut st, Action::MkDirInput);
    reduce(&mut st, Action::SetInput(String::from("newdir")));
    assert_eq!(st.popup_input, "newdir");
    let eff = reduce(&mut st, Action::MkDir);
    assert!(st.popup_next_action.is_none());
    match eff {
        Effect::Run(CmdRequest::MkDirCmd { path }) => assert_eq!(path, "/a/newdir"),
        other => panic!("expected a directory-creation command, got {:?}", other),
    }
    let eff = apply_cmd_result(
        &mut st,
        &CmdRequest::MkDirCmd { path: String::from("/a/newdir") },
        ok_output(),
    );
    assert!(matches!(eff, Effect::Done));
    assert_eq!(st.popup_msg, "");
}

#[test]
fn mkdir_failure_shows_the_captured_error() {
    let mut st = fresh_state("/a", &[]);
    reduce(&mut st, Action::MkDirInput);
    reduce(&mut st, Action::SetInput(String::from("nope")));
    reduce(&mut st, Action::MkDir);
    apply_cmd_result(
        &mut st,
        &CmdRequest::MkDirCmd { path: String::from("/a/nope") },
        failed_output("mkdir: cannot create directory"),
    );
    assert_eq!(st.popup_type, PopupType::Error);
    assert_eq!(st.popup_msg, "mkdir: cannot create directory");
    assert!(st.popup_next_action.is_none());
}

#[test]
fn rm_confirmation_then_cancel_runs_nothing() {
    let mut st = fresh_state("/a", &[("/a/a.txt", false)]);
    let eff = reduce(&mut st, Action::RmYesNo(String::from("a.txt")));
    assert!(matches!(eff, Effect::Done));
    assert_eq!(st.popup_msg, "Do you want to remove file? a.txt");
    assert_eq!(st.popup_type, PopupType::YesNo);
    assert!(matches!(st.popup_next_action, Some(Action::Rm(ref f)) if f == "a.txt"));
    let eff = reduce(&mut st, Action::Cancel);
    assert!(matches!(eff, Effect::Done));
    assert_eq!(st.popup_msg, "");
    assert!(st.popup_next_action.is_none());
}

#[test]
fn rm_confirmation_then_confirm_removes_and_clears_the_popup() {
    let mut st = fresh_state("/a", &[("/a/a.txt", false)]);
    reduce(&mut st, Action::RmYesNo(String::from("a.txt")));
    let pending = st.popup_next_action.clone().expect("a pending removal");
    let eff = reduce(&mut st, pending);
    let req = match eff {
        Effect::Run(req @ CmdRequest::RmCmd { .. }) => {
            match &req {
                CmdRequest::RmCmd { path } => assert_eq!(path, "a.txt"),
                _ => unreachable!(),
            }
            req
        },
        other => panic!("expected a removal command, got {:?}", other),
    };
    assert!(st.popup_next_action.is_none());
    let eff = apply_cmd_result(&mut st, &req, ok_output());
    assert!(matches!(eff, Effect::Done));
    assert_eq!(st.popup_msg, "");
}

#[test]
fn copy_failure_shows_stderr_and_rescans_both_panels() {
    let mut st = fresh_state("/a", &[("/a/a.txt", false)]);
    let eff = reduce(&mut st, Action::Copy(String::from("a.txt"), String::from("/tmp")));
    let req = match eff {
        Effect::Run(req @ CmdRequest::CopyCmd { .. }) => {
            match &req {
                CmdRequest::CopyCmd { from, to } => {
                    assert_eq!(from, "a.txt");
                    assert_eq!(to, "/tmp");
                },
                _ => unreachable!(),
            }
            req
        },
        other => panic!("expected a copy command, got {:?}", other),
    };
    let eff = apply_cmd_result(&mut st, &req, failed_output("cp: permission denied"));
    assert!(matches!(eff, Effect::RescanBoth));
    assert_eq!(st.popup_type, PopupType::Error);
    assert!(st.popup_msg.contains("permission denied"));
    st.reload(PanelPosition::L, listing(&[("/a/l", false)]));
    st.reload(PanelPosition::R, listing(&[("/a/r", true)]));
    assert_eq!(st.l_panel.items.len(), 2);
    assert_eq!(st.r_panel.items.len(), 2);
}

#[test]
fn copy_success_also_rescans_both_panels() {
    let mut st = fresh_state("/a", &[("/a/a.txt", false)]);
    let eff = reduce(&mut st, Action::Copy(String::from("a.txt"), String::from("/tmp")));
    let req = match eff {
        Effect::Run(req) => req,
        other => panic!("expected a command, got {:?}", other),
    };
    let eff = apply_cmd_result(&mut st, &req, ok_output());
    assert!(matches!(eff, Effect::RescanBoth));
    assert_eq!(st.popup_msg, "");
}

#[test]
fn open_failure_becomes_an_error_notice() {
    let mut st = fresh_state("/a", &[]);
    let eff = reduce(&mut st, Action::Open(String::from("/a/f.pdf")));
    let req = match eff {
        Effect::Run(req @ CmdRequest::OpenCmd { .. }) => req,
        other => panic!("expected an open command, got {:?}", other),
    };
    let eff = apply_cmd_result(&mut st, &req, failed_output("no handler"));
    assert!(matches!(eff, Effect::Done));
    assert_eq!(st.popup_type, PopupType::Error);
    assert_eq!(st.popup_msg, "no handler");
    assert!(st.popup_next_action.is_none());
}

#[test]
fn editor_actions_drive_the_editor_flags() {
    let mut st = fresh_state("/a", &[]);
    reduce(&mut st, Action::Edit(String::from("notes.txt")));
    assert_eq!(st.editor_file.as_deref(), Some("notes.txt"));
    assert!(!st.editor_modified);
    reduce(&mut st, Action::EditorModified);
    assert!(st.editor_modified);
    reduce(&mut st, Action::EditorResetModified);
    assert!(!st.editor_modified);
    reduce(&mut st, Action::EditorExit);
    assert!(st.editor_file.is_none());
}

#[test]
fn reload_action_requests_a_rescan_of_the_named_panel() {
    let mut st = fresh_state("/a", &[]);
    let eff = reduce(&mut st, Action::Reload(PanelPosition::R));
    assert!(matches!(eff, Effect::Rescan(PanelPosition::R)));
}

#[test]
fn exit_requests_termination() {
    let mut st = fresh_state("/a", &[]);
    let eff = reduce(&mut st, Action::Exit);
    assert!(matches!(eff, Effect::Terminate));
}

#[test]
fn pending_action_never_survives_an_error_notice() {
    let mut st = fresh_state("/a", &[]);
    reduce(&mut st, Action::RmYesNo(String::from("x")));
    let pending = st.popup_next_action.clone().expect("a pending removal");
    let eff = reduce(&mut st, pending);
    let req = match eff {
        Effect::Run(req) => req,
        other => panic!("expected a command, got {:?}", other),
    };
    apply_cmd_result(&mut st, &req, failed_output("rm: failure"));
    assert_eq!(st.popup_type, PopupType::Error);
    assert!(st.popup_next_action.is_none());
}

#[test]
fn state_cd_updates_path_index_and_listing_at_once() {
    let mut st = fresh_state("/a", &[("/a/subdir", true)]);
    assert_eq!(st.cd_target("subdir"), "/a/subdir");
    st.cd(
        String::from("subdir"),
        listing(&[("/a/subdir/inner", true), ("/a/subdir/f", false)]),
    );
    assert_eq!(st.l_panel.path, "/a/subdir");
    assert_eq!(st.l_panel.index, 0);
    assert_eq!(st.l_panel.items.len(), 3);
    assert_eq!(st.r_panel.path, "/a");
    let eff = reduce(&mut st, Action::Cd(String::from("..")));
    assert!(matches!(eff, Effect::Rescan(PanelPosition::L)));
    assert_eq!(st.l_panel.path, "/a");
}
