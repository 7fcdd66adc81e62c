//! The reduction step of the state store.
//!
//! The store owns the sole mutable [`State`](crate::state::State) and applies
//! exactly one reduction per incoming [`Action`].  Everything the reduction
//! cannot do itself — run a command, list a directory — it hands back to the
//! caller as an [`Effect`] of plain values; the caller performs the outside
//! work and feeds the outcome into [`apply_cmd_result`] or
//! [`State::reload`](crate::state::State::reload).  Every reduction preserves
//! the snapshot invariant `State::wf`, so exactly one panel stays active and
//! an error notice never carries a pending action, in every reachable state.

use vstd::prelude::*;
use crate::action::Action;
use crate::state::{
    State, advanced, editor_eq, entered_pending, panels_eq, popup_eq, retreated,
};

verus! {

/// Which of the two panels is meant.
#[derive(Debug, Clone, PartialEq, Eq, Structural)]
pub enum PanelPosition {
    L,
    R,
}

/// What kind of popup is showing: an input line, a yes/no question, or an
/// error notice.
#[derive(Debug, Clone, PartialEq, Eq, Structural)]
pub enum PopupType {
    Input,
    YesNo,
    Error,
}

/// A command for the execution collaborator, as plain values; the caller
/// maps each to the platform's program and arguments.
#[derive(Debug, Clone)]
pub enum CmdRequest {
    /// Copy `from` into `to`, recursively.
    CopyCmd { from: String, to: String },
    /// Create the directory `path`.
    MkDirCmd { path: String },
    /// Remove `path`, recursively and without asking again.
    RmCmd { path: String },
    /// Open `path` with the platform opener.
    OpenCmd { path: String },
}

/// What the execution collaborator reported back: whether the command exited
/// successfully, and its captured standard-error text.
#[derive(Debug, Clone)]
pub struct CmdOutput {
    pub success: bool,
    pub stderr: String,
}

/// The outside work a reduction step asks its caller for.
#[derive(Debug)]
pub enum Effect {
    /// Nothing: publish the snapshot.
    Done,
    /// Rescan the named panel's directory and hand the listing to
    /// `State::reload`.
    Rescan(PanelPosition),
    /// Rescan both panels' directories.
    RescanBoth,
    /// Run the command and hand its outcome to `apply_cmd_result`.
    Run(CmdRequest),
    /// Stop the reduction loop.
    Terminate,
}

/// The position of the active panel.
pub open spec fn spec_active_position(s: State) -> PanelPosition {
    if s.l_panel.active {
        PanelPosition::L
    } else {
        PanelPosition::R
    }
}

/// Applies exactly one reduction for `action` to `state`, as the per-action
/// clauses below state, and returns the outside work that completes the
/// step.  The snapshot invariant is preserved by every action.
pub fn reduce(state: &mut State, action: Action) -> (eff: Effect)
    requires
        old(state).wf(),
    ensures
        final(state).wf(),
        match action {
            Action::SwitchTabs => {
                &&& *final(state) == (State {
                    l_panel: crate::state::PanelData {
                        active: !old(state).l_panel.active,
                        ..old(state).l_panel
                    },
                    r_panel: crate::state::PanelData {
                        active: !old(state).r_panel.active,
                        ..old(state).r_panel
                    },
                    ..*old(state)
                })
                &&& eff is Done
            },
            Action::Reload(position) => {
                &&& *final(state) == *old(state)
                &&& eff == Effect::Rescan(position)
            },
            Action::FileItemDown(times) => {
                &&& advanced(*old(state), *final(state), times as int)
                &&& final(state).spec_active_panel().index
                    < final(state).spec_active_panel().items@.len()
                &&& eff is Done
            },
            Action::FileItemUp(times) => {
                &&& retreated(*old(state), *final(state), times as int)
                &&& final(state).spec_active_panel().index
                    < final(state).spec_active_panel().items@.len()
                &&& eff is Done
            },
            Action::Cd(dir) => {
                let target = crate::pathops::normalize_spec(
                    crate::pathops::join_path(old(state).spec_active_panel().path@, dir@),
                );
                &&& entered_pending(*old(state), *final(state), target)
                &&& eff == Effect::Rescan(spec_active_position(*old(state)))
            },
            Action::Copy(from, to) => {
                &&& *final(state) == *old(state)
                &&& eff == Effect::Run(CmdRequest::CopyCmd { from, to })
            },
            Action::MkDirInput => {
                &&& final(state).popup_msg@ == "Create directory:"@
                &&& final(state).popup_type == PopupType::Input
                &&& final(state).popup_next_action == Some(Action::MkDir)
                &&& final(state).popup_input == old(state).popup_input
                &&& panels_eq(*final(state), *old(state))
                &&& editor_eq(*final(state), *old(state))
                &&& eff is Done
            },
            Action::SetInput(text) => {
                &&& *final(state) == (State { popup_input: text, ..*old(state) })
                &&& eff is Done
            },
            Action::MkDir => {
                &&& final(state).popup_next_action is None
                &&& final(state).popup_msg == old(state).popup_msg
                &&& final(state).popup_type == old(state).popup_type
                &&& final(state).popup_input == old(state).popup_input
                &&& panels_eq(*final(state), *old(state))
                &&& editor_eq(*final(state), *old(state))
                &&& (eff matches Effect::Run(CmdRequest::MkDirCmd { path }) && path@ == old(
                    state,
                ).spec_active_panel().path@ + seq!['/'] + old(state).popup_input@)
            },
            Action::RmYesNo(file) => {
                &&& final(state).popup_msg@ == "Do you want to remove file? "@ + file@
                &&& final(state).popup_type == PopupType::YesNo
                &&& final(state).popup_next_action == Some(Action::Rm(file))
                &&& final(state).popup_input == old(state).popup_input
                &&& panels_eq(*final(state), *old(state))
                &&& editor_eq(*final(state), *old(state))
                &&& eff is Done
            },
            Action::Rm(file) => {
                &&& final(state).popup_next_action is None
                &&& final(state).popup_msg == old(state).popup_msg
                &&& final(state).popup_type == old(state).popup_type
                &&& final(state).popup_input == old(state).popup_input
                &&& panels_eq(*final(state), *old(state))
                &&& editor_eq(*final(state), *old(state))
                &&& eff == Effect::Run(CmdRequest::RmCmd { path: file })
            },
            Action::Open(file) => {
                &&& *final(state) == *old(state)
                &&& eff == Effect::Run(CmdRequest::OpenCmd { path: file })
            },
            Action::Edit(file) => {
                &&& *final(state) == (State {
                    editor_file: Some(file),
                    editor_modified: false,
                    ..*old(state)
                })
                &&& eff is Done
            },
            Action::EditorResetModified => {
                &&& *final(state) == (State { editor_modified: false, ..*old(state) })
                &&& eff is Done
            },
            Action::EditorModified => {
                &&& *final(state) == (State { editor_modified: true, ..*old(state) })
                &&& eff is Done
            },
            Action::EditorExit => {
                &&& *final(state) == (State { editor_file: None, ..*old(state) })
                &&& eff is Done
            },
            Action::Cancel => {
                &&& final(state).popup_msg@.len() == 0
                &&& final(state).popup_next_action is None
                &&& final(state).popup_type == old(state).popup_type
                &&& final(state).popup_input == old(state).popup_input
                &&& panels_eq(*final(state), *old(state))
                &&& editor_eq(*final(state), *old(state))
                &&& eff is Done
            },
            Action::Exit => {
                &&& *final(state) == *old(state)
                &&& eff is Terminate
            },
        },
{
    match action {
        Action::SwitchTabs => {
            state.l_panel.active = !state.l_panel.active;
            state.r_panel.active = !state.r_panel.active;
            Effect::Done
        },
        Action::Reload(position) => Effect::Rescan(position),
        Action::FileItemDown(times) => {
            state.add_index(times);
            Effect::Done
        },
        Action::FileItemUp(times) => {
            state.sub_index(times);
            Effect::Done
        },
        Action::Cd(dir) => {
            let target = state.cd_target(dir.as_str());
            let at_left = state.l_panel.active;
            if at_left {
                state.l_panel.path = target;
                state.l_panel.index = 0;
                Effect::Rescan(PanelPosition::L)
            } else {
                state.r_panel.path = target;
                state.r_panel.index = 0;
                Effect::Rescan(PanelPosition::R)
            }
        },
        Action::Copy(from, to) => Effect::Run(CmdRequest::CopyCmd { from, to }),
        Action::MkDirInput => {
            state.popup_msg = String::from_str("Create directory:");
            state.popup_type = PopupType::Input;
            state.popup_next_action = Some(Action::MkDir);
            Effect::Done
        },
        Action::SetInput(text) => {
            state.popup_input = text;
            Effect::Done
        },
        Action::MkDir => {
            state.popup_next_action = None;
            let base = if state.l_panel.active {
                state.l_panel.path.clone()
            } else {
                state.r_panel.path.clone()
            };
            let full_path = base.concat("/").concat(state.popup_input.as_str());
            proof {
                reveal_strlit("/");
                assert("/"@ =~= seq!['/']);
            }
            Effect::Run(CmdRequest::MkDirCmd { path: full_path })
        },
        Action::RmYesNo(file) => {
            let msg = String::from_str("Do you want to remove file? ").concat(file.as_str());
            state.popup_msg = msg;
            state.popup_type = PopupType::YesNo;
            state.popup_next_action = Some(Action::Rm(file));
            Effect::Done
        },
        Action::Rm(file) => {
            state.popup_next_action = None;
            Effect::Run(CmdRequest::RmCmd { path: file })
        },
        Action::Open(file) => Effect::Run(CmdRequest::OpenCmd { path: file }),
        Action::Edit(file) => {
            state.editor_file = Some(file);
            state.editor_modified = false;
            Effect::Done
        },
        Action::EditorResetModified => {
            state.editor_modified = false;
            Effect::Done
        },
        Action::EditorModified => {
            state.editor_modified = true;
            Effect::Done
        },
        Action::EditorExit => {
            state.editor_file = None;
            Effect::Done
        },
        Action::Cancel => {
            state.popup_msg = String::new();
            state.popup_next_action = None;
            Effect::Done
        },
        Action::Exit => Effect::Terminate,
    }
}

/// After any sequence of `SwitchTabs` reductions exactly one panel is
/// active, and two consecutive `SwitchTabs` reductions restore the prior
/// snapshot, its activation flags included: each step flips both flags and
/// moves nothing else, so the alternation is preserved and two steps are the
/// identity.
pub proof fn lemma_switch_tabs_twice(s0: State, s1: State, s2: State)
    requires
        s0.wf(),
        s1 == (State {
            l_panel: crate::state::PanelData { active: !s0.l_panel.active, ..s0.l_panel },
            r_panel: crate::state::PanelData { active: !s0.r_panel.active, ..s0.r_panel },
            ..s0
        }),
        s2 == (State {
            l_panel: crate::state::PanelData { active: !s1.l_panel.active, ..s1.l_panel },
            r_panel: crate::state::PanelData { active: !s1.r_panel.active, ..s1.r_panel },
            ..s1
        }),
    ensures
        s1.one_active(),
        s2.one_active(),
        s2.l_panel.active == s0.l_panel.active,
        s2.r_panel.active == s0.r_panel.active,
        s2 == s0,
{
}

/// Folds the outcome of a previously requested command back into the state:
/// a failure becomes a dismissible error notice holding the command's
/// standard-error text (and discards any pending action, so an error notice
/// never carries one); a successful directory creation or removal clears the
/// popup; a copy asks for both panels to be rescanned whatever the outcome.
pub fn apply_cmd_result(state: &mut State, req: &CmdRequest, out: CmdOutput) -> (eff: Effect)
    requires
        old(state).wf(),
    ensures
        final(state).wf(),
        panels_eq(*final(state), *old(state)),
        editor_eq(*final(state), *old(state)),
        final(state).popup_input == old(state).popup_input,
        match *req {
            CmdRequest::CopyCmd { .. } => eff is RescanBoth,
            _ => eff is Done,
        },
        out.success ==> match *req {
            CmdRequest::CopyCmd { .. } | CmdRequest::OpenCmd { .. } => popup_eq(
                *final(state),
                *old(state),
            ),
            CmdRequest::MkDirCmd { .. } | CmdRequest::RmCmd { .. } => {
                &&& final(state).popup_msg@.len() == 0
                &&& final(state).popup_type == old(state).popup_type
                &&& final(state).popup_next_action == old(state).popup_next_action
            },
        },
        !out.success ==> {
            &&& final(state).popup_msg@ == out.stderr@
            &&& final(state).popup_type == PopupType::Error
            &&& final(state).popup_next_action is None
        },
{
    if !out.success {
        state.popup_msg = out.stderr;
        state.popup_type = PopupType::Error;
        state.popup_next_action = None;
    } else {
        match req {
            CmdRequest::MkDirCmd { .. } | CmdRequest::RmCmd { .. } => {
                state.popup_msg = String::new();
            },
            _ => {},
        }
    }
    match req {
        CmdRequest::CopyCmd { .. } => Effect::RescanBoth,
        _ => Effect::Done,
    }
}

} // verus!
