//! The event reducer: how each workspace event changes the registry, and
//! whether the strip has to be rendered again.

use vstd::prelude::*;
use vstd::string::*;
use crate::identity::{
    get_name_key_from_node,
    get_name_key_from_workspace,
    remember,
    resolve,
    resolved_key,
    IdentityCache,
    Node,
    ParseError,
};
use crate::markup::{button, get_button, render_line, strip_line};
use crate::registry::{widgets_of, Registry};
use crate::text::{parse_number, parse_usize};
use crate::visibility::{
    classify,
    get_visibility_node,
    get_visibility_workspace,
    live_has_name,
    live_name_exists,
    live_visibility,
    str_equal,
    LiveWorkspace,
    Visibility,
};

verus! {

/// The kinds of workspace change. Every kind that the reducer does not act
/// on is `Other`.
#[derive(Clone, Copy, Debug, PartialEq, Eq, Structural)]
pub enum EventKind {
    Focus,
    Init,
    Empty,
    Urgent,
    Move,
    Other,
}

/// One workspace-change event.
pub struct WorkspaceEvent {
    pub kind: EventKind,
    pub current: Option<Node>,
    pub old: Option<Node>,
}

/// The state of the engine as plain mathematics: the memo of identities and
/// the widget shown for each tracked key.
pub struct Model {
    pub memo: Map<usize, (usize, Seq<char>)>,
    pub shown: Map<usize, Seq<char>>,
}

/// What handling an event leads to: the next state, and either the dirty
/// flag or the parse failure that stopped the handling.
pub struct Outcome {
    pub model: Model,
    pub result: Result<bool, ParseError>,
}

/// The outcome of a failed resolution: nothing changes.
pub open spec fn failed(m: Model) -> Outcome {
    Outcome { model: m, result: Err(ParseError {  }) }
}

/// `Urgent`: the workspace is shown as urgent, tracked before or not.
pub open spec fn urgent_step(m: Model, id: usize, name: Seq<char>) -> Outcome {
    match resolve(m.memo, id, name) {
        Some(pair) => Outcome {
            model: Model {
                memo: remember(m.memo, id, name),
                shown: m.shown.insert(pair.0, button(pair.0, pair.1, Visibility::Urgent)),
            },
            result: Ok(true),
        },
        None => failed(m),
    }
}

/// `Init`: the workspace is tracked in the state that the live lookup gives;
/// the strip is not marked dirty.
pub open spec fn init_step(m: Model, id: usize, name: Seq<char>, live: Seq<LiveWorkspace>) -> Outcome {
    match resolve(m.memo, id, name) {
        Some(pair) => Outcome {
            model: Model {
                memo: remember(m.memo, id, name),
                shown: m.shown.insert(
                    pair.0,
                    button(pair.0, pair.1, live_visibility(live, id)),
                ),
            },
            result: Ok(false),
        },
        None => failed(m),
    }
}

/// `Empty`: the name is read as a bare number, past the memo, and that key
/// is dropped; dirty where it was tracked.
pub open spec fn empty_step(m: Model, name: Seq<char>) -> Outcome {
    match parse_number(name) {
        Some(key) => Outcome {
            model: Model { memo: m.memo, shown: m.shown.remove(key) },
            result: Ok(m.shown.contains_key(key)),
        },
        None => failed(m),
    }
}

/// First half of `Focus`, for the workspace that lost the focus: where it is
/// tracked, it is shown in its live state if a live workspace still has its
/// name, and dropped otherwise.
pub open spec fn focus_old_step(m: Model, id: usize, name: Seq<char>, live: Seq<LiveWorkspace>) -> Outcome {
    match resolve(m.memo, id, name) {
        Some(pair) => Outcome {
            model: Model {
                memo: remember(m.memo, id, name),
                shown: if !m.shown.contains_key(pair.0) {
                    m.shown
                } else if live_has_name(live, name) {
                    m.shown.insert(pair.0, button(pair.0, pair.1, live_visibility(live, id)))
                } else {
                    m.shown.remove(pair.0)
                },
            },
            result: Ok(m.shown.contains_key(pair.0)),
        },
        None => failed(m),
    }
}

/// Second half of `Focus`, for the workspace that got the focus: where it is
/// tracked it is shown as focused; it is never added.
pub open spec fn focus_current_step(m: Model, id: usize, name: Seq<char>) -> Outcome {
    match resolve(m.memo, id, name) {
        Some(pair) => Outcome {
            model: Model {
                memo: remember(m.memo, id, name),
                shown: if m.shown.contains_key(pair.0) {
                    m.shown.insert(pair.0, button(pair.0, pair.1, Visibility::Focused))
                } else {
                    m.shown
                },
            },
            result: Ok(m.shown.contains_key(pair.0)),
        },
        None => failed(m),
    }
}

/// `Focus`: both halves in turn; dirty where either half is.
pub open spec fn focus_step(
    m: Model,
    old_id: usize,
    old_name: Seq<char>,
    id: usize,
    name: Seq<char>,
    live: Seq<LiveWorkspace>,
) -> Outcome {
    let first = focus_old_step(m, old_id, old_name, live);
    match first.result {
        Ok(dirty) => {
            let second = focus_current_step(first.model, id, name);
            match second.result {
                Ok(also) => Outcome { model: second.model, result: Ok(dirty || also) },
                Err(_) => second,
            }
        },
        Err(_) => first,
    }
}

/// `Move`: a workspace that arrives on the monitor is tracked in its live
/// state, one that is tracked and now elsewhere, or on no output, is dropped.
pub open spec fn move_step(
    m: Model,
    monitor: Seq<char>,
    id: usize,
    name: Seq<char>,
    output: Option<Seq<char>>,
    live: Seq<LiveWorkspace>,
) -> Outcome {
    match resolve(m.memo, id, name) {
        Some(pair) => {
            let known = m.shown.contains_key(pair.0);
            let here = output is Some && output->0 == monitor;
            Outcome {
                model: Model {
                    memo: remember(m.memo, id, name),
                    shown: if here && !known {
                        m.shown.insert(pair.0, button(pair.0, pair.1, live_visibility(live, id)))
                    } else if !here && known {
                        m.shown.remove(pair.0)
                    } else {
                        m.shown
                    },
                },
                result: Ok(here != known),
            }
        },
        None => failed(m),
    }
}

/// The output that a node names, as characters.
pub open spec fn output_of(node: Node) -> Option<Seq<char>> {
    match node.output {
        Some(o) => Some(o@),
        None => None,
    }
}

/// Whether a node names itself.
pub open spec fn named(node: Option<Node>) -> bool {
    node is Some && node->0.name is Some
}

/// Whether the event carries what its kind reads: the current workspace with
/// its name, and for a focus change the old one too.
pub open spec fn payload_present(event: WorkspaceEvent) -> bool {
    match event.kind {
        EventKind::Other => true,
        EventKind::Focus => named(event.old) && named(event.current),
        _ => named(event.current),
    }
}

/// Whether `node` is there and names itself.
fn is_named(node: &Option<Node>) -> (b: bool)
    ensures
        b == named(*node),
{
    match node {
        Some(n) => n.name.is_some(),
        None => false,
    }
}

impl WorkspaceEvent {
    /// Whether the event carries what its kind reads.
    pub fn is_complete(&self) -> (b: bool)
        ensures
            b == payload_present(*self),
    {
        match self.kind {
            EventKind::Other => true,
            EventKind::Focus => is_named(&self.old) && is_named(&self.current),
            _ => is_named(&self.current),
        }
    }
}

/// What handling `event` leads to from the state `m`, with `live` as the
/// snapshot of the live workspaces.
pub open spec fn step(m: Model, monitor: Seq<char>, event: WorkspaceEvent, live: Seq<LiveWorkspace>) -> Outcome {
    let current = event.current->0;
    let name = current.name->0@;
    match event.kind {
        EventKind::Urgent => urgent_step(m, current.id, name),
        EventKind::Init => init_step(m, current.id, name, live),
        EventKind::Empty => empty_step(m, name),
        EventKind::Focus => focus_step(
            m,
            event.old->0.id,
            event.old->0.name->0@,
            current.id,
            name,
            live,
        ),
        EventKind::Move => move_step(m, monitor, current.id, name, output_of(current), live),
        EventKind::Other => Outcome { model: m, result: Ok(false) },
    }
}

/// Whether handling `event` from the state `m` looks workspaces up in the
/// live snapshot: for a new workspace, for a known one that lost the focus,
/// and for an unknown one that arrives on the monitor.
pub open spec fn consults_live(m: Model, monitor: Seq<char>, event: WorkspaceEvent) -> bool {
    let current = event.current->0;
    let past = event.old->0;
    match event.kind {
        EventKind::Init => resolve(m.memo, current.id, current.name->0@) is Some,
        EventKind::Focus => resolve(m.memo, past.id, past.name->0@) is Some
            && m.shown.contains_key(resolved_key(m.memo, past.id, past.name->0@)),
        EventKind::Move => resolve(m.memo, current.id, current.name->0@) is Some && output_of(
            current,
        ) == Some(monitor) && !m.shown.contains_key(
            resolved_key(m.memo, current.id, current.name->0@),
        ),
        _ => false,
    }
}

/// Seeding with one live workspace: it is tracked in the state of its own
/// flags where it is on the monitor.
pub open spec fn seed_one(m: Model, monitor: Seq<char>, w: LiveWorkspace) -> Outcome {
    if w.output@ != monitor {
        Outcome { model: m, result: Ok(true) }
    } else {
        match resolve(m.memo, w.id, w.name@) {
            Some(pair) => Outcome {
                model: Model {
                    memo: remember(m.memo, w.id, w.name@),
                    shown: m.shown.insert(
                        pair.0,
                        button(pair.0, pair.1, classify(w.focused, w.urgent, w.visible)),
                    ),
                },
                result: Ok(true),
            },
            None => failed(m),
        }
    }
}

/// Seeding with the live workspaces `live` in their order, up to the first
/// one that does not resolve. Success always asks for a render.
pub open spec fn seeded(m: Model, monitor: Seq<char>, live: Seq<LiveWorkspace>) -> Outcome
    decreases live.len(),
{
    if live.len() == 0 {
        Outcome { model: m, result: Ok(true) }
    } else {
        let before = seeded(m, monitor, live.drop_last());
        match before.result {
            Ok(_) => seed_one(before.model, monitor, live.last()),
            Err(_) => before,
        }
    }
}

/// The engine for one monitor: the monitor's name, the memo of identities
/// and the registry of what is shown.
pub struct Engine {
    pub monitor: String,
    pub cache: IdentityCache,
    pub registry: Registry,
}

impl Engine {
    /// The registry's keys ascend.
    pub open spec fn wf(&self) -> bool {
        self.registry.wf()
    }

    /// The state as plain mathematics.
    pub open spec fn model(&self) -> Model {
        Model { memo: self.cache@, shown: self.registry.as_map() }
    }

    /// The widgets in the order in which they are rendered: ascending by key.
    pub open spec fn widgets(&self) -> Seq<Seq<char>> {
        widgets_of(self.registry@)
    }

    /// An engine for `monitor` that tracks nothing yet.
    pub fn new(monitor: String) -> (engine: Engine)
        ensures
            engine.wf(),
            engine.monitor@ == monitor@,
            engine.model() == (Model { memo: Map::empty(), shown: Map::empty() }),
            engine.widgets() == Seq::<Seq<char>>::empty(),
    {
        let engine = Engine { monitor, cache: IdentityCache::new(), registry: Registry::new() };
        assert(engine.widgets() =~= Seq::<Seq<char>>::empty());
        engine
    }

    /// Populates the registry from a snapshot of the live workspaces: those
    /// on the monitor, each in the state of its own flags.
    pub fn seed(&mut self, live: &Vec<LiveWorkspace>) -> (r: Result<bool, ParseError>)
        requires
            old(self).wf(),
        ensures
            final(self).wf(),
            final(self).monitor@ == old(self).monitor@,
            final(self).model() == seeded(old(self).model(), old(self).monitor@, live@).model,
            r == seeded(old(self).model(), old(self).monitor@, live@).result,
    {
        let mut i: usize = 0;
        assert(live@.take(0) =~= Seq::<LiveWorkspace>::empty());
        while i < live.len()
            invariant
                i <= live@.len(),
                self.wf(),
                self.monitor@ == old(self).monitor@,
                seeded(old(self).model(), old(self).monitor@, live@.take(i as int)).result is Ok,
                self.model() == seeded(
                    old(self).model(),
                    old(self).monitor@,
                    live@.take(i as int),
                ).model,
            decreases live@.len() - i,
        {
            let workspace = &live[i];
            proof {
                assert(live@.take(i + 1).drop_last() =~= live@.take(i as int));
                assert(live@.take(i + 1).last() == live@[i as int]);
            }
            if str_equal(workspace.output.as_str(), self.monitor.as_str()) {
                match get_name_key_from_workspace(&mut self.cache, workspace) {
                    Ok(pair) => {
                        let widget = get_button(
                            &pair.0,
                            pair.1.as_str(),
                            get_visibility_workspace(workspace),
                        );
                        self.registry.upsert(pair.0, widget);
                    },
                    Err(e) => {
                        proof {
                            lemma_seeded_stops(
                                old(self).model(),
                                old(self).monitor@,
                                live@,
                                i + 1,
                            );
                        }
                        return Err(e);
                    },
                }
            }
            i += 1;
        }
        assert(live@.take(live@.len() as int) =~= live@);
        Ok(true)
    }

    /// Shows the workspace of `node` as urgent.
    fn on_urgent(&mut self, node: &Node) -> (r: Result<bool, ParseError>)
        requires
            old(self).wf(),
            node.name is Some,
        ensures
            final(self).wf(),
            final(self).monitor@ == old(self).monitor@,
            final(self).model() == urgent_step(old(self).model(), node.id, node.name->0@).model,
            r == urgent_step(old(self).model(), node.id, node.name->0@).result,
    {
        match get_name_key_from_node(&mut self.cache, node) {
            Ok(pair) => {
                let widget = get_button(&pair.0, pair.1.as_str(), Visibility::Urgent);
                self.registry.upsert(pair.0, widget);
                Ok(true)
            },
            Err(e) => Err(e),
        }
    }

    /// Tracks the new workspace of `node` in its live state.
    fn on_init(&mut self, node: &Node, live: &Vec<LiveWorkspace>) -> (r: Result<bool, ParseError>)
        requires
            old(self).wf(),
            node.name is Some,
        ensures
            final(self).wf(),
            final(self).monitor@ == old(self).monitor@,
            final(self).model() == init_step(
                old(self).model(),
                node.id,
                node.name->0@,
                live@,
            ).model,
            r == init_step(old(self).model(), node.id, node.name->0@, live@).result,
    {
        match get_name_key_from_node(&mut self.cache, node) {
            Ok(pair) => {
                let widget = get_button(
                    &pair.0,
                    pair.1.as_str(),
                    get_visibility_node(live, node.id),
                );
                self.registry.upsert(pair.0, widget);
                Ok(false)
            },
            Err(e) => Err(e),
        }
    }

    /// Drops the emptied workspace of `node`.
    fn on_empty(&mut self, node: &Node) -> (r: Result<bool, ParseError>)
        requires
            old(self).wf(),
            node.name is Some,
        ensures
            final(self).wf(),
            final(self).monitor@ == old(self).monitor@,
            final(self).model() == empty_step(old(self).model(), node.name->0@).model,
            r == empty_step(old(self).model(), node.name->0@).result,
    {
        let name = node.name.as_ref().unwrap();
        match parse_usize(name.as_str()) {
            Some(key) => {
                let removed = self.registry.remove(key);
                Ok(removed)
            },
            None => {
                Err(ParseError {  })
            },
        }
    }

    /// Brings the workspace that lost the focus up to date.
    fn on_focus_old(&mut self, node: &Node, live: &Vec<LiveWorkspace>) -> (r: Result<
        bool,
        ParseError,
    >)
        requires
            old(self).wf(),
            node.name is Some,
        ensures
            final(self).wf(),
            final(self).monitor@ == old(self).monitor@,
            final(self).model() == focus_old_step(
                old(self).model(),
                node.id,
                node.name->0@,
                live@,
            ).model,
            r == focus_old_step(old(self).model(), node.id, node.name->0@, live@).result,
    {
        let name = node.name.as_ref().unwrap();
        match get_name_key_from_node(&mut self.cache, node) {
            Ok(pair) => {
                if self.registry.contains_key(pair.0) {
                    if live_name_exists(live, name.as_str()) {
                        let widget = get_button(
                            &pair.0,
                            pair.1.as_str(),
                            get_visibility_node(live, node.id),
                        );
                        self.registry.upsert(pair.0, widget);
                    } else {
                        let _ = self.registry.remove(pair.0);
                    }
                    Ok(true)
                } else {
                    Ok(false)
                }
            },
            Err(e) => Err(e),
        }
    }

    /// Shows the workspace that got the focus as focused, where it is tracked.
    fn on_focus_current(&mut self, node: &Node) -> (r: Result<bool, ParseError>)
        requires
            old(self).wf(),
            node.name is Some,
        ensures
            final(self).wf(),
            final(self).monitor@ == old(self).monitor@,
            final(self).model() == focus_current_step(
                old(self).model(),
                node.id,
                node.name->0@,
            ).model,
            r == focus_current_step(old(self).model(), node.id, node.name->0@).result,
    {
        match get_name_key_from_node(&mut self.cache, node) {
            Ok(pair) => {
                if self.registry.contains_key(pair.0) {
                    let widget = get_button(&pair.0, pair.1.as_str(), Visibility::Focused);
                    self.registry.upsert(pair.0, widget);
                    Ok(true)
                } else {
                    Ok(false)
                }
            },
            Err(e) => Err(e),
        }
    }

    /// Follows the workspace of `node` to the output it moved to.
    fn on_move(&mut self, node: &Node, live: &Vec<LiveWorkspace>) -> (r: Result<bool, ParseError>)
        requires
            old(self).wf(),
            node.name is Some,
        ensures
            final(self).wf(),
            final(self).monitor@ == old(self).monitor@,
            final(self).model() == move_step(
                old(self).model(),
                old(self).monitor@,
                node.id,
                node.name->0@,
                output_of(*node),
                live@,
            ).model,
            r == move_step(
                old(self).model(),
                old(self).monitor@,
                node.id,
                node.name->0@,
                output_of(*node),
                live@,
            ).result,
    {
        match get_name_key_from_node(&mut self.cache, node) {
            Ok(pair) => {
                let known = self.registry.contains_key(pair.0);
                let here = match &node.output {
                    Some(output) => str_equal(output.as_str(), self.monitor.as_str()),
                    None => false,
                };
                if here && !known {
                    let widget = get_button(
                        &pair.0,
                        pair.1.as_str(),
                        get_visibility_node(live, node.id),
                    );
                    self.registry.upsert(pair.0, widget);
                    Ok(true)
                } else if !here && known {
                    let _ = self.registry.remove(pair.0);
                    Ok(true)
                } else {
                    Ok(false)
                }
            },
            Err(e) => Err(e),
        }
    }

    /// Handles one event, with `live` as the snapshot of the live workspaces
    /// for the lookups it needs. Returns whether the strip is dirty and has
    /// to be rendered again, or the parse failure that stopped the handling.
    pub fn handle_event(&mut self, event: &WorkspaceEvent, live: &Vec<LiveWorkspace>) -> (r: Result<
        bool,
        ParseError,
    >)
        requires
            old(self).wf(),
            payload_present(*event),
        ensures
            final(self).wf(),
            final(self).monitor@ == old(self).monitor@,
            final(self).model() == step(old(self).model(), old(self).monitor@, *event, live@).model,
            r == step(old(self).model(), old(self).monitor@, *event, live@).result,
    {
        match event.kind {
            EventKind::Other => Ok(false),
            EventKind::Urgent => self.on_urgent(event.current.as_ref().unwrap()),
            EventKind::Init => self.on_init(event.current.as_ref().unwrap(), live),
            EventKind::Empty => self.on_empty(event.current.as_ref().unwrap()),
            EventKind::Move => self.on_move(event.current.as_ref().unwrap(), live),
            EventKind::Focus => {
                match self.on_focus_old(event.old.as_ref().unwrap(), live) {
                    Ok(dirty) => {
                        match self.on_focus_current(event.current.as_ref().unwrap()) {
                            Ok(also) => Ok(dirty || also),
                            Err(e) => Err(e),
                        }
                    },
                    Err(e) => Err(e),
                }
            },
        }
    }

    /// Whether handling `event` looks workspaces up in the live snapshot.
    /// Where it does not, no snapshot has to be fetched: any will do.
    pub fn needs_snapshot(&self, event: &WorkspaceEvent) -> (needed: bool)
        requires
            self.wf(),
            payload_present(*event),
        ensures
            needed == consults_live(self.model(), self.monitor@, *event),
    {
        match event.kind {
            EventKind::Init => {
                let node = event.current.as_ref().unwrap();
                self.cache.peek_key(&node.id, node.name.as_ref().unwrap().as_str()).is_some()
            },
            EventKind::Focus => {
                let node = event.old.as_ref().unwrap();
                match self.cache.peek_key(&node.id, node.name.as_ref().unwrap().as_str()) {
                    Some(key) => self.registry.contains_key(key),
                    None => false,
                }
            },
            EventKind::Move => {
                let node = event.current.as_ref().unwrap();
                match self.cache.peek_key(&node.id, node.name.as_ref().unwrap().as_str()) {
                    Some(key) => {
                        let here = match &node.output {
                            Some(output) => str_equal(output.as_str(), self.monitor.as_str()),
                            None => false,
                        };
                        here && !self.registry.contains_key(key)
                    },
                    None => false,
                }
            },
            _ => false,
        }
    }

    /// Renders the tracked workspaces, ascending by key, as one line.
    pub fn render(&self) -> (line: String)
        ensures
            line@ == strip_line(self.widgets()),
    {
        let widgets = self.registry.render_all();
        assert(Seq::new(widgets@.len(), |i: int| widgets@[i]@) =~= self.widgets());
        render_line(&widgets)
    }
}

/// Seeding stops at the first live workspace that does not resolve.
pub proof fn lemma_seeded_stops(m: Model, monitor: Seq<char>, live: Seq<LiveWorkspace>, k: int)
    requires
        0 <= k <= live.len(),
        seeded(m, monitor, live.take(k)).result is Err,
    ensures
        seeded(m, monitor, live) == seeded(m, monitor, live.take(k)),
    decreases live.len() - k,
{
    if k == live.len() {
        assert(live.take(k) =~= live);
    } else {
        assert(live.drop_last().take(k) =~= live.take(k));
        lemma_seeded_stops(m, monitor, live.drop_last(), k);
    }
}

} // verus!
