//! The visual state of a workspace, from its own flags or from a snapshot of
//! the live workspaces.

use vstd::prelude::*;

verus! {

/// The visual state that a workspace button is styled with.
#[derive(Clone, Copy, Debug, PartialEq, Eq, Structural)]
pub enum Visibility {
    Focused,
    Urgent,
    Visible,
    Hidden,
    /// No live workspace matched: the button is rendered without a style.
    Unknown,
}

/// What the window manager reports of one live workspace.
pub struct LiveWorkspace {
    pub id: usize,
    pub name: String,
    pub output: String,
    pub focused: bool,
    pub urgent: bool,
    pub visible: bool,
}

/// The state that the three flags stand for: focus wins over urgency,
/// urgency over being visible.
pub open spec fn classify(focused: bool, urgent: bool, visible: bool) -> Visibility {
    if focused {
        Visibility::Focused
    } else if urgent {
        Visibility::Urgent
    } else if visible {
        Visibility::Visible
    } else {
        Visibility::Hidden
    }
}

/// The state of the first live workspace with the identifier `id`, or
/// `Unknown` where there is none.
pub open spec fn live_visibility(live: Seq<LiveWorkspace>, id: usize) -> Visibility
    decreases live.len(),
{
    if live.len() == 0 {
        Visibility::Unknown
    } else if live[0].id == id {
        classify(live[0].focused, live[0].urgent, live[0].visible)
    } else {
        live_visibility(live.drop_first(), id)
    }
}

/// Whether a live workspace carries the name `name`.
pub open spec fn live_has_name(live: Seq<LiveWorkspace>, name: Seq<char>) -> bool {
    exists|i: int| 0 <= i < live.len() && (#[trigger] live[i]).name@ == name
}

/// The class token that a state is rendered with.
pub open spec fn token_of(vis: Visibility) -> Seq<char> {
    match vis {
        Visibility::Focused => "focused"@,
        Visibility::Urgent => "urgent"@,
        Visibility::Visible => "visible"@,
        Visibility::Hidden => "hidden"@,
        Visibility::Unknown => ""@,
    }
}

impl Visibility {
    /// The class token of this state; empty for `Unknown`.
    pub fn token(&self) -> (t: &'static str)
        ensures
            t@ == token_of(*self),
    {
        match self {
            Visibility::Focused => "focused",
            Visibility::Urgent => "urgent",
            Visibility::Visible => "visible",
            Visibility::Hidden => "hidden",
            Visibility::Unknown => "",
        }
    }
}

/// Classifies a live workspace by its own flags.
pub fn get_visibility_workspace(workspace: &LiveWorkspace) -> (vis: Visibility)
    ensures
        vis == classify(workspace.focused, workspace.urgent, workspace.visible),
{
    if workspace.focused {
        Visibility::Focused
    } else if workspace.urgent {
        Visibility::Urgent
    } else if workspace.visible {
        Visibility::Visible
    } else {
        Visibility::Hidden
    }
}

/// Classifies the workspace with the identifier `id` by looking it up in a
/// snapshot of the live workspaces.
pub fn get_visibility_node(live: &Vec<LiveWorkspace>, id: usize) -> (vis: Visibility)
    ensures
        vis == live_visibility(live@, id),
{
    let mut i: usize = 0;
    assert(live@.skip(0) =~= live@);
    while i < live.len()
        invariant
            i <= live@.len(),
            live_visibility(live@, id) == live_visibility(live@.skip(i as int), id),
        decreases live@.len() - i,
    {
        proof {
            assert(live@.skip(i as int)[0] == live@[i as int]);
            assert(live@.skip(i as int).drop_first() =~= live@.skip(i + 1));
        }
        if live[i].id == id {
            return get_visibility_workspace(&live[i]);
        }
        i += 1;
    }
    Visibility::Unknown
}

/// Whether a live workspace carries the name `name`.
pub fn live_name_exists(live: &Vec<LiveWorkspace>, name: &str) -> (found: bool)
    ensures
        found == live_has_name(live@, name@),
{
    let mut i: usize = 0;
    while i < live.len()
        invariant
            i <= live@.len(),
            forall|j: int| 0 <= j < i ==> (#[trigger] live@[j]).name@ != name@,
        decreases live@.len() - i,
    {
        if str_equal(live[i].name.as_str(), name) {
            return true;
        }
        i += 1;
    }
    false
}

/// Whether two strings hold the same characters.
pub fn str_equal(a: &str, b: &str) -> (same: bool)
    ensures
        same == (a@ == b@),
{
    let n = a.unicode_len();
    if n != b.unicode_len() {
        return false;
    }
    let mut i: usize = 0;
    while i < n
        invariant
            i <= n,
            n == a@.len(),
            n == b@.len(),
            forall|j: int| 0 <= j < i ==> a@[j] == b@[j],
        decreases n - i,
    {
        if a.get_char(i) != b.get_char(i) {
            return false;
        }
        i += 1;
    }
    assert(a@ =~= b@);
    true
}

} // verus!
