//! Editor actions: the queue that user interface code pushes its requests
//! onto, the requests aimed at windows, and how a view request changes the
//! list of views and the selected one.
use vstd::prelude::*;
use crate::saving::SaveAction;

verus! {

/// A queue that can only be pushed to, and emptied all at once by whoever
/// processes it.
#[derive(Debug)]
pub struct PushQueue<T>(pub Vec<T>);

impl<T> Default for PushQueue<T> {
    fn default() -> (q: Self)
        ensures
            q.0@ == Seq::<T>::empty(),
    {
        PushQueue(Vec::new())
    }
}

impl<T> PushQueue<T> {
    /// Adds `item` at the end of the queue.
    pub fn push(&mut self, item: T)
        ensures
            final(self).0@ == old(self).0@.push(item),
    {
        self.0.push(item);
    }

    /// Takes everything queued, oldest first, leaving the queue empty.
    pub fn drain_all(&mut self) -> (items: Vec<T>)
        ensures
            items@ == old(self).0@,
            final(self).0@ == Seq::<T>::empty(),
    {
        let mut items: Vec<T> = Vec::new();
        std::mem::swap(&mut items, &mut self.0);
        items
    }
}

/// The identifier of an open window.
#[derive(Debug, Clone, Copy, PartialEq, Eq, Structural)]
pub struct WindowId(pub u64);

/// A request aimed at one window; what it means is up to the window.
#[derive(Debug)]
pub struct WindowAction<E> {
    pub target: WindowId,
    pub action: E,
}

/// A request aimed at whichever window has the type `target_window_type`.
#[derive(Debug)]
pub struct TypeTargetedWindowAction<E> {
    pub target_window_type: u128,
    pub action: E,
}

impl<E> TypeTargetedWindowAction<E> {
    /// The request for the window found to have the target type, if one
    /// was found; with none it reaches no window.
    pub fn resolve(self, found: Option<WindowId>) -> (r: Option<WindowAction<E>>)
        ensures
            match found {
                Some(id) => r matches Some(wa) && wa.target == id && wa.action == self.action,
                None => r is None,
            },
    {
        match found {
            Some(id) => Some(WindowAction { target: id, action: self.action }),
            None => None,
        }
    }
}

/// A request to close a window.
#[derive(Debug, Clone, Copy)]
pub struct CloseWindowAction {
    pub id: WindowId,
}

/// A request to change the list of views or the selected view.
#[derive(Debug, Clone)]
pub enum ViewAction {
    Close(usize),
    Select(usize),
    New(String),
}

/// The state that the editor shares across windows.
#[derive(Debug)]
pub struct GlobalState {}

impl Default for GlobalState {
    fn default() -> (g: Self) {
        GlobalState {}
    }
}

/// A request to the editor.
#[derive(Debug)]
pub enum EditorAction<E> {
    Window(WindowAction<E>),
    View(ViewAction),
    Save(SaveAction),
}

impl<E> PushQueue<EditorAction<E>> {
    /// Queues the request `event` for the window `window`.
    pub fn window(&mut self, window: WindowId, event: E)
        ensures
            final(self).0@.len() == old(self).0@.len() + 1,
            final(self).0@.take(old(self).0@.len() as int) == old(self).0@,
            final(self).0@.last() matches EditorAction::Window(wa) && wa.target == window && wa.action
                == event,
    {
        self.push(EditorAction::Window(WindowAction { target: window, action: event }));
        proof {
            assert(self.0@.take(old(self).0@.len() as int) =~= old(self).0@);
        }
    }
}

/// A view of the editor: its name and the layout of its windows.
#[derive(Debug)]
pub struct ViewState<D> {
    pub name: String,
    pub dock_state: D,
}

/// The views of the editor and which of them is selected.
#[derive(Debug)]
pub struct ViewList<D> {
    pub views: Vec<ViewState<D>>,
    pub active_view: Option<usize>,
}

/// The selected view after the view at `index` is closed: closing the
/// selected view leaves none selected, and views after the closed one move
/// down by one.
pub open spec fn active_after_close(active: Option<usize>, index: usize) -> Option<usize> {
    match active {
        Some(idx) => if idx == index {
            None
        } else if idx > index {
            Some((idx - 1) as usize)
        } else {
            Some(idx)
        },
        None => None,
    }
}

impl<D> ViewList<D> {
    /// Applies a view request. A new view starts with the layout
    /// `empty_dock`. Closing a view that does not exist is left out.
    pub fn handle_view_action(&mut self, view_action: ViewAction, empty_dock: D)
        requires
            view_action matches ViewAction::Close(index) ==> index < old(self).views.len(),
        ensures
            match view_action {
                ViewAction::Close(index) => {
                    &&& final(self).views@ == old(self).views@.remove(index as int)
                    &&& final(self).active_view == active_after_close(old(self).active_view, index)
                },
                ViewAction::Select(index) => {
                    &&& final(self).views@ == old(self).views@
                    &&& final(self).active_view == Some(index)
                },
                ViewAction::New(name) => {
                    &&& final(self).views@.len() == old(self).views@.len() + 1
                    &&& final(self).views@.take(old(self).views@.len() as int) == old(self).views@
                    &&& final(self).views@.last().name == name
                    &&& final(self).views@.last().dock_state == empty_dock
                    &&& final(self).active_view == old(self).active_view
                },
            },
    {
        match view_action {
            ViewAction::Close(index) => {
                self.views.remove(index);
                if let Some(idx) = self.active_view {
                    if idx == index {
                        self.active_view = None;
                    } else if idx > index {
                        self.active_view = Some(idx - 1);
                    }
                }
            },
            ViewAction::Select(index) => {
                self.active_view = Some(index);
            },
            ViewAction::New(name) => {
                self.views.push(ViewState { name, dock_state: empty_dock });
                proof {
                    assert(self.views@.take(old(self).views@.len() as int) =~= old(self).views@);
                }
            },
        }
    }
}

/// Closing a view other than the selected one keeps the same view selected.
pub proof fn law_closing_other_view_keeps_selection<D>(
    views: Seq<ViewState<D>>,
    active: usize,
    index: usize,
)
    requires
        active < views.len(),
        index < views.len(),
        active != index,
    ensures
        active_after_close(Some(active), index) matches Some(a) && views.remove(index as int)[a as int]
            == views[active as int],
{
    views.remove_ensures(index as int);
}

/// Closing the selected view leaves no view selected.
pub proof fn law_closing_selected_view_clears_selection(active: Option<usize>, index: usize)
    requires
        active == Some(index),
    ensures
        active_after_close(active, index) is None,
{
}


/// What a click on the button of the view at `index` asks: selecting the
/// view when its name was clicked, else closing it when its close mark
/// was.
pub open spec fn view_button_request(index: usize, select_clicked: bool, close_clicked: bool) -> Option<ViewAction> {
    if select_clicked {
        Some(ViewAction::Select(index))
    } else if close_clicked {
        Some(ViewAction::Close(index))
    } else {
        None
    }
}

/// The request of the first view button, from `from` on, that was clicked.
pub open spec fn first_view_request(clicks: Seq<(bool, bool)>, from: int) -> Option<ViewAction>
    decreases clicks.len() - from,
{
    if from < 0 || from >= clicks.len() || from > usize::MAX {
        None
    } else {
        match view_button_request(from as usize, clicks[from].0, clicks[from].1) {
            Some(a) => Some(a),
            None => first_view_request(clicks, from + 1),
        }
    }
}

/// What the button of the view at `index` asks, given what was clicked on
/// it.
pub fn view_button(index: usize, select_clicked: bool, close_clicked: bool) -> (r: Option<ViewAction>)
    ensures
        r == view_button_request(index, select_clicked, close_clicked),
{
    if select_clicked {
        Some(ViewAction::Select(index))
    } else if close_clicked {
        Some(ViewAction::Close(index))
    } else {
        None
    }
}

/// What the view selection bar asks, given for each view button whether
/// its name and its close mark were clicked, and whether the button for a
/// new view was: a new view named `new`, else the request of the first
/// view button clicked.
pub fn view_selection_bar(clicks: &Vec<(bool, bool)>, new_clicked: bool) -> (r: Option<ViewAction>)
    ensures
        new_clicked ==> (r matches Some(ViewAction::New(name)) && name@ == "new"@),
        !new_clicked ==> r == first_view_request(clicks@, 0),
{
    if new_clicked {
        return Some(ViewAction::New("new".to_owned()));
    }
    let mut i: usize = 0;
    while i < clicks.len()
        invariant
            !new_clicked,
            i <= clicks@.len(),
            first_view_request(clicks@, 0) == first_view_request(clicks@, i as int),
        decreases clicks@.len() - i,
    {
        let (select_clicked, close_clicked) = clicks[i];
        let action = view_button(i, select_clicked, close_clicked);
        if action.is_some() {
            return action;
        }
        i = i + 1;
    }
    None
}

} // verus!
