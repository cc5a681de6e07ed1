//! The tabs of the editor's dock: their titles, and which of them can be
//! closed.
use vstd::prelude::*;

verus! {

/// A tab of the dock. A saver tab holds the asset it saves, the path typed
/// so far, and whether it is done and must close.
#[derive(Debug)]
pub enum EguiWindow<G, F> {
    GraphEditor,
    FsmEditor,
    Preview,
    PreviewHierarchy,
    PreviewErrors,
    GraphSelector,
    SceneSelector,
    FsmSelector,
    Inspector,
    EventSender,
    GraphSaver(G, String, bool),
    FsmSaver(F, String, bool),
}

impl<G, F> EguiWindow<G, F> {
    /// The title of the tab.
    pub open spec fn spec_display_name(&self) -> Seq<char> {
        match self {
            EguiWindow::GraphEditor => "Graph Editor"@,
            EguiWindow::Preview => "Preview Scene"@,
            EguiWindow::PreviewHierarchy => "Preview Hierarchy"@,
            EguiWindow::PreviewErrors => "Errors"@,
            EguiWindow::GraphSelector => "Select Graph"@,
            EguiWindow::SceneSelector => "Select Scene"@,
            EguiWindow::FsmSelector => "Select FSM"@,
            EguiWindow::GraphSaver(_, _, _) => "Save Graph"@,
            EguiWindow::FsmSaver(_, _, _) => "Save State Machine"@,
            EguiWindow::FsmEditor => "FSM Editor"@,
            EguiWindow::Inspector => "Inspector"@,
            EguiWindow::EventSender => "Send events"@,
        }
    }

    /// The title of the tab.
    pub fn display_name(&self) -> (s: String)
        ensures
            s@ == self.spec_display_name(),
    {
        match self {
            EguiWindow::GraphEditor => "Graph Editor".to_owned(),
            EguiWindow::Preview => "Preview Scene".to_owned(),
            EguiWindow::PreviewHierarchy => "Preview Hierarchy".to_owned(),
            EguiWindow::PreviewErrors => "Errors".to_owned(),
            EguiWindow::GraphSelector => "Select Graph".to_owned(),
            EguiWindow::SceneSelector => "Select Scene".to_owned(),
            EguiWindow::FsmSelector => "Select FSM".to_owned(),
            EguiWindow::GraphSaver(_, _, _) => "Save Graph".to_owned(),
            EguiWindow::FsmSaver(_, _, _) => "Save State Machine".to_owned(),
            EguiWindow::FsmEditor => "FSM Editor".to_owned(),
            EguiWindow::Inspector => "Inspector".to_owned(),
            EguiWindow::EventSender => "Send events".to_owned(),
        }
    }

    /// Only saver tabs can be closed.
    pub fn closeable(&self) -> (b: bool)
        ensures
            b == (self is GraphSaver || self is FsmSaver),
    {
        match self {
            EguiWindow::GraphSaver(_, _, _) => true,
            EguiWindow::FsmSaver(_, _, _) => true,
            _ => false,
        }
    }

    /// A saver tab that is done closes by itself.
    pub fn force_close(&self) -> (b: bool)
        ensures
            b == (self matches EguiWindow::GraphSaver(_, _, true) || self matches EguiWindow::FsmSaver(_, _, true)),
    {
        match self {
            EguiWindow::GraphSaver(_, _, done) => *done,
            EguiWindow::FsmSaver(_, _, done) => *done,
            _ => false,
        }
    }
}

} // verus!
