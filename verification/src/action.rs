//! The closed set of intents that the UI and the collaborators raise.

use vstd::prelude::*;
use crate::state_store::PanelPosition;

verus! {

/// A message to the state store: the sole way to mutate the application
/// state.  The variant set is the contract boundary between the UI and the
/// store.
#[derive(Debug, Clone)]
pub enum Action {
    /// Open a file in the editor.
    Edit(String),
    /// Clear the editor's modified flag.
    EditorResetModified,
    /// Set the editor's modified flag.
    EditorModified,
    /// Leave the editor.
    EditorExit,
    /// Move the selection of the active panel up.
    FileItemUp(usize),
    /// Move the selection of the active panel down.
    FileItemDown(usize),
    /// Enter a directory from the active panel.
    Cd(String),
    /// Open a file with the platform opener.
    Open(String),
    /// Copy a file or directory to another directory.
    Copy(String, String),
    /// Store the live text of the input popup.
    SetInput(String),
    /// Ask for confirmation before removing a file.
    RmYesNo(String),
    /// Ask for the name of a directory to create.
    MkDirInput,
    /// Remove a file, previously confirmed.
    Rm(String),
    /// Create the directory named by the stored popup input.
    MkDir,
    /// Make the other panel the active one.
    SwitchTabs,
    /// Rescan one panel's directory.
    Reload(PanelPosition),
    /// Dismiss the popup without running its pending action.
    Cancel,
    /// Stop the application.
    Exit,
}

} // verus!
