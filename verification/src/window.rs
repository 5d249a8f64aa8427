//! Snapshots of what the compositor reports: windows and workspaces.
//!
//! Both are rebuilt on every pass; nothing here outlives one.

use vstd::prelude::*;

verus! {

/// One window, as far as labelling has to know it.
pub struct Window {
    /// Application class; empty when the window does not identify itself.
    pub class: String,
    /// Window title; may be empty.
    pub title: String,
    /// Identifier of the workspace that the window is on.
    pub workspace: i32,
    /// Whether the window is shown. A window that is not takes part in nothing.
    pub mapped: bool,
}

/// The mathematical value of a [`Window`].
pub struct WindowView {
    pub class: Seq<char>,
    pub title: Seq<char>,
    pub workspace: int,
    pub mapped: bool,
}

impl View for Window {
    type V = WindowView;

    open spec fn view(&self) -> WindowView {
        WindowView {
            class: self.class@,
            title: self.title@,
            workspace: self.workspace as int,
            mapped: self.mapped,
        }
    }
}

impl DeepView for Window {
    type V = WindowView;

    open spec fn deep_view(&self) -> WindowView {
        self@
    }
}

impl Clone for Window {
    fn clone(&self) -> (copy: Self)
        ensures
            copy == *self,
    {
        Window {
            class: self.class.clone(),
            title: self.title.clone(),
            workspace: self.workspace,
            mapped: self.mapped,
        }
    }
}

/// One workspace with the name that the compositor shows for it now.
pub struct Workspace {
    /// The durable key of the workspace.
    pub id: i32,
    /// The displayed name; the compositor owns it and a rename overwrites it.
    pub name: String,
    /// How many windows the compositor counts on the workspace.
    pub windows: u16,
}

/// The mathematical value of a [`Workspace`].
pub struct WorkspaceView {
    pub id: int,
    pub name: Seq<char>,
    pub windows: nat,
}

impl View for Workspace {
    type V = WorkspaceView;

    open spec fn view(&self) -> WorkspaceView {
        WorkspaceView { id: self.id as int, name: self.name@, windows: self.windows as nat }
    }
}

impl DeepView for Workspace {
    type V = WorkspaceView;

    open spec fn deep_view(&self) -> WorkspaceView {
        self@
    }
}

} // verus!
