use workspace_strip::identity::Node;
use workspace_strip::markup::{get_button, render_line};
use workspace_strip::reducer::{Engine, EventKind, WorkspaceEvent};
use workspace_strip::registry::Registry;
use workspace_strip::visibility::{
    get_visibility_node, get_visibility_workspace, live_name_exists, str_equal, LiveWorkspace,
    Visibility,
};

const BOX_LINE: &str = "(box :class 'i3wm-workspaces'     :orientation 'h'     :spacing 5     :space-evenly 'false'";

fn button_line(key: usize, label: &str, class: &str) -> String {
    format!(
        "(button   :class 'i3wm-workspace-{}'          :onclick 'i3-msg -t run_command workspace {}'          '{}')",
        class, key, label
    )
}

fn live(id: usize, name: &str, output: &str, focused: bool, urgent: bool, visible: bool) -> LiveWorkspace {
    LiveWorkspace {
        id,
        name: name.to_string(),
        output: output.to_string(),
        focused,
        urgent,
        visible,
    }
}

fn node(id: usize, name: &str, output: Option<&str>) -> Node {
    Node { id, name: Some(name.to_string()), output: output.map(|o| o.to_string()) }
}

fn event(kind: EventKind, current: Option<Node>, old: Option<Node>) -> WorkspaceEvent {
    WorkspaceEvent { kind, current, old }
}

#[test]
fn button_markup_is_exact() {
    assert_eq!(
        get_button(&3, "★", Visibility::Urgent),
        "(button   :class 'i3wm-workspace-urgent'\n          :onclick 'i3-msg -t run_command workspace 3'\n          '★')"
    );
    assert_eq!(
        get_button(&12, "12", Visibility::Unknown),
        "(button   :class 'i3wm-workspace-'\n          :onclick 'i3-msg -t run_command workspace 12'\n          '12')"
    );
}

#[test]
fn tokens_of_the_states() {
    assert_eq!(Visibility::Focused.token(), "focused");
    assert_eq!(Visibility::Urgent.token(), "urgent");
    assert_eq!(Visibility::Visible.token(), "visible");
    assert_eq!(Visibility::Hidden.token(), "hidden");
    assert_eq!(Visibility::Unknown.token(), "");
}

#[test]
fn flags_are_classified_by_priority() {
    for bits in 0..8 {
        let (f, u, v) = (bits & 4 != 0, bits & 2 != 0, bits & 1 != 0);
        let expected = if f {
            Visibility::Focused
        } else if u {
            Visibility::Urgent
        } else if v {
            Visibility::Visible
        } else {
            Visibility::Hidden
        };
        assert_eq!(get_visibility_workspace(&live(1, "1", "M1", f, u, v)), expected);
    }
}

#[test]
fn live_lookup_goes_by_id() {
    let snapshot = vec![
        live(1, "1", "M1", false, false, false),
        live(2, "2", "M2", false, true, true),
        live(2, "9", "M1", true, false, false),
    ];
    assert_eq!(get_visibility_node(&snapshot, 1), Visibility::Hidden);
    assert_eq!(get_visibility_node(&snapshot, 2), Visibility::Urgent);
    assert_eq!(get_visibility_node(&snapshot, 3), Visibility::Unknown);
    assert_eq!(get_visibility_node(&Vec::new(), 1), Visibility::Unknown);
    assert!(live_name_exists(&snapshot, "9"));
    assert!(!live_name_exists(&snapshot, "3"));
    assert!(str_equal("M1", "M1"));
    assert!(!str_equal("M1", "M2"));
    assert!(!str_equal("M1", "M10"));
}

#[test]
fn empty_strip_is_just_the_container() {
    assert_eq!(render_line(&Vec::new()), format!("{})", BOX_LINE));
    assert_eq!(Engine::new("M1".to_string()).render(), format!("{})", BOX_LINE));
}

#[test]
fn registry_renders_in_ascending_key_order() {
    let mut registry = Registry::new();
    registry.upsert(3, "c".to_string());
    registry.upsert(1, "a".to_string());
    registry.upsert(2, "b".to_string());
    assert_eq!(registry.keys(), vec![1, 2, 3]);
    assert_eq!(registry.render_all(), vec!["a".to_string(), "b".to_string(), "c".to_string()]);
    assert_eq!(registry.len(), 3);
    registry.upsert(2, "B".to_string());
    assert_eq!(registry.keys(), vec![1, 2, 3]);
    assert_eq!(registry.render_all(), vec!["a".to_string(), "B".to_string(), "c".to_string()]);
    assert!(registry.contains_key(2));
    assert!(!registry.contains_key(4));
    assert!(registry.remove(2));
    assert!(!registry.remove(2));
    assert_eq!(registry.keys(), vec![1, 3]);
    assert_eq!(registry.render_all(), vec!["a".to_string(), "c".to_string()]);
    assert!(registry.remove(1));
    assert!(registry.remove(3));
    assert_eq!(registry.len(), 0);
}

#[test]
fn seed_keeps_the_monitor_s_workspaces() {
    let mut engine = Engine::new("M1".to_string());
    let snapshot = vec![
        live(12, "3;web ★", "M1", false, false, true),
        live(10, "1", "M1", true, false, false),
        live(11, "2", "M2", false, false, true),
        live(13, "4", "M1", false, true, false),
        live(14, "5", "M1", false, false, false),
    ];
    assert_eq!(engine.seed(&snapshot), Ok(true));
    assert_eq!(engine.registry.keys(), vec![1, 3, 4, 5]);
    assert_eq!(
        engine.render(),
        format!(
            "{}{}{}{}{})",
            BOX_LINE,
            button_line(1, "1", "focused"),
            button_line(3, "★", "visible"),
            button_line(4, "4", "urgent"),
            button_line(5, "5", "hidden")
        )
    );
}

#[test]
fn seed_stops_at_a_name_without_number() {
    let mut engine = Engine::new("M1".to_string());
    let snapshot = vec![
        live(10, "1", "M1", true, false, false),
        live(11, "web", "M2", false, false, false),
        live(12, "mail", "M1", false, false, false),
        live(13, "4", "M1", false, false, false),
    ];
    assert!(engine.seed(&snapshot).is_err());
    assert_eq!(engine.registry.keys(), vec![1]);
}

#[test]
fn urgent_adds_or_rewrites() {
    let mut engine = Engine::new("M1".to_string());
    let e = event(EventKind::Urgent, Some(node(1, "4", None)), None);
    assert!(e.is_complete());
    assert!(!engine.needs_snapshot(&e));
    assert_eq!(engine.handle_event(&e, &Vec::new()), Ok(true));
    assert_eq!(engine.render(), format!("{}{})", BOX_LINE, button_line(4, "4", "urgent")));
    let again = event(EventKind::Urgent, Some(node(1, "4", None)), None);
    assert_eq!(engine.handle_event(&again, &Vec::new()), Ok(true));
    assert_eq!(engine.registry.keys(), vec![4]);
}

#[test]
fn snapshot_is_needed_only_for_lookups() {
    let mut engine = Engine::new("M1".to_string());
    assert_eq!(engine.seed(&vec![live(1, "1", "M1", true, false, false)]), Ok(true));
    let known = || node(1, "1", None);
    let unknown = || node(2, "2", None);
    assert!(engine.needs_snapshot(&event(EventKind::Init, Some(unknown()), None)));
    assert!(!engine.needs_snapshot(&event(EventKind::Init, Some(node(3, "web", None)), None)));
    assert!(!engine.needs_snapshot(&event(EventKind::Empty, Some(known()), None)));
    assert!(!engine.needs_snapshot(&event(EventKind::Urgent, Some(known()), None)));
    assert!(engine.needs_snapshot(&event(EventKind::Focus, Some(unknown()), Some(known()))));
    assert!(!engine.needs_snapshot(&event(EventKind::Focus, Some(known()), Some(unknown()))));
    assert!(engine.needs_snapshot(&event(EventKind::Move, Some(node(2, "2", Some("M1"))), None)));
    assert!(!engine.needs_snapshot(&event(EventKind::Move, Some(node(2, "2", Some("M2"))), None)));
    assert!(!engine.needs_snapshot(&event(EventKind::Move, Some(node(1, "1", Some("M1"))), None)));
    assert!(!engine.needs_snapshot(&event(EventKind::Move, Some(known()), None)));
    assert_eq!(engine.registry.keys(), vec![1]);
}

#[test]
fn events_without_their_workspace_are_incomplete() {
    assert!(event(EventKind::Other, None, None).is_complete());
    assert!(!event(EventKind::Urgent, None, None).is_complete());
    assert!(!event(EventKind::Focus, Some(node(1, "1", None)), None).is_complete());
    assert!(!event(EventKind::Focus, None, Some(node(1, "1", None))).is_complete());
    assert!(event(EventKind::Focus, Some(node(1, "1", None)), Some(node(2, "2", None))).is_complete());
    let nameless = Node { id: 1, name: None, output: None };
    assert!(!event(EventKind::Init, Some(nameless), None).is_complete());
}

#[test]
fn empty_on_unknown_key_is_a_no_op() {
    let mut engine = Engine::new("M1".to_string());
    assert_eq!(engine.seed(&vec![live(1, "1", "M1", true, false, false)]), Ok(true));
    let before = engine.render();
    let e = event(EventKind::Empty, Some(node(9, "7", None)), None);
    assert_eq!(engine.handle_event(&e, &Vec::new()), Ok(false));
    assert_eq!(engine.render(), before);
    assert_eq!(engine.registry.keys(), vec![1]);
}

#[test]
fn empty_drops_a_known_key_past_the_cache() {
    let mut engine = Engine::new("M1".to_string());
    assert_eq!(engine.seed(&vec![live(1, "1;★", "M1", true, false, false)]), Ok(true));
    let e = event(EventKind::Empty, Some(node(1, "1", None)), None);
    assert_eq!(engine.handle_event(&e, &Vec::new()), Ok(true));
    assert_eq!(engine.registry.len(), 0);
    let e = event(EventKind::Empty, Some(node(1, "1;★", None)), None);
    assert!(engine.handle_event(&e, &Vec::new()).is_err());
}

#[test]
fn focus_from_unknown_key_leaves_the_registry() {
    let mut engine = Engine::new("M1".to_string());
    assert_eq!(engine.seed(&vec![live(1, "1", "M1", false, false, true)]), Ok(true));
    let before = engine.render();
    let snapshot = vec![live(1, "1", "M1", false, false, true), live(5, "5", "M2", false, false, true)];
    let e = event(EventKind::Focus, Some(node(6, "6", None)), Some(node(5, "5", None)));
    assert_eq!(engine.handle_event(&e, &snapshot), Ok(false));
    assert_eq!(engine.render(), before);
    let e = event(EventKind::Focus, Some(node(1, "1", None)), Some(node(5, "5", None)));
    assert_eq!(engine.handle_event(&e, &snapshot), Ok(true));
    assert_eq!(engine.registry.keys(), vec![1]);
    assert_eq!(engine.render(), format!("{}{})", BOX_LINE, button_line(1, "1", "focused")));
}

#[test]
fn focus_drops_an_old_workspace_that_is_gone() {
    let mut engine = Engine::new("M1".to_string());
    let snapshot = vec![live(1, "1", "M1", true, false, false), live(2, "2", "M1", false, false, false)];
    assert_eq!(engine.seed(&snapshot), Ok(true));
    let after = vec![live(2, "2", "M1", true, false, true)];
    let e = event(EventKind::Focus, Some(node(2, "2", None)), Some(node(1, "1", None)));
    assert_eq!(engine.handle_event(&e, &after), Ok(true));
    assert_eq!(engine.render(), format!("{}{})", BOX_LINE, button_line(2, "2", "focused")));
}

#[test]
fn focus_finds_old_by_name_and_classifies_by_id() {
    let mut engine = Engine::new("M1".to_string());
    assert_eq!(engine.seed(&vec![live(1, "1", "M1", true, false, false)]), Ok(true));
    let after = vec![live(8, "1", "M1", false, false, true)];
    let e = event(EventKind::Focus, Some(node(2, "2", None)), Some(node(1, "1", None)));
    assert_eq!(engine.handle_event(&e, &after), Ok(true));
    assert_eq!(engine.render(), format!("{}{})", BOX_LINE, button_line(1, "1", "")));
}

#[test]
fn move_without_output() {
    let mut engine = Engine::new("M1".to_string());
    assert_eq!(engine.seed(&vec![live(1, "1", "M1", true, false, false)]), Ok(true));
    let e = event(EventKind::Move, Some(node(2, "2", None)), None);
    assert_eq!(engine.handle_event(&e, &Vec::new()), Ok(false));
    assert_eq!(engine.registry.keys(), vec![1]);
    let e = event(EventKind::Move, Some(node(1, "1", None)), None);
    assert_eq!(engine.handle_event(&e, &Vec::new()), Ok(true));
    assert_eq!(engine.registry.len(), 0);
}

#[test]
fn move_between_outputs() {
    let mut engine = Engine::new("M1".to_string());
    let snapshot = vec![live(3, "3", "M1", false, false, true)];
    let arrive = event(EventKind::Move, Some(node(3, "3", Some("M1"))), None);
    assert_eq!(engine.handle_event(&arrive, &snapshot), Ok(true));
    assert_eq!(engine.render(), format!("{}{})", BOX_LINE, button_line(3, "3", "visible")));
    assert_eq!(engine.handle_event(&arrive, &Vec::new()), Ok(false));
    assert_eq!(engine.render(), format!("{}{})", BOX_LINE, button_line(3, "3", "visible")));
    let elsewhere = event(EventKind::Move, Some(node(4, "4", Some("M2"))), None);
    assert_eq!(engine.handle_event(&elsewhere, &snapshot), Ok(false));
    let leave = event(EventKind::Move, Some(node(3, "3", Some("M2"))), None);
    assert_eq!(engine.handle_event(&leave, &snapshot), Ok(true));
    assert_eq!(engine.registry.len(), 0);
}

#[test]
fn other_kinds_are_ignored() {
    let mut engine = Engine::new("M1".to_string());
    let e = event(EventKind::Other, None, None);
    assert_eq!(engine.handle_event(&e, &Vec::new()), Ok(false));
    assert_eq!(engine.registry.len(), 0);
    assert!(!engine.needs_snapshot(&e));
}

#[test]
fn parse_failure_stops_the_event() {
    let mut engine = Engine::new("M1".to_string());
    assert_eq!(engine.seed(&vec![live(1, "1", "M1", true, false, false)]), Ok(true));
    let snapshot = vec![live(1, "1", "M1", false, false, true)];
    let e = event(EventKind::Focus, Some(node(2, "web", None)), Some(node(1, "1", None)));
    assert!(engine.handle_event(&e, &snapshot).is_err());
    assert_eq!(engine.render(), format!("{}{})", BOX_LINE, button_line(1, "1", "visible")));
    let e = event(EventKind::Init, Some(node(3, "", None)), None);
    assert!(engine.handle_event(&e, &snapshot).is_err());
    let e = event(EventKind::Urgent, Some(node(4, ";", None)), None);
    assert!(engine.handle_event(&e, &snapshot).is_err());
    let e = event(EventKind::Move, Some(node(5, "x", None)), None);
    assert!(engine.handle_event(&e, &snapshot).is_err());
    assert_eq!(engine.registry.keys(), vec![1]);
}

#[test]
fn seed_then_init_then_focus() {
    let mut engine = Engine::new("M1".to_string());
    let first = vec![live(1, "1", "M1", true, false, false)];
    assert_eq!(engine.seed(&first), Ok(true));
    assert_eq!(engine.render(), format!("{}{})", BOX_LINE, button_line(1, "1", "focused")));

    let init = event(EventKind::Init, Some(node(2, "2;★", None)), None);
    assert!(engine.needs_snapshot(&init));
    assert_eq!(engine.handle_event(&init, &first), Ok(false));
    assert_eq!(engine.registry.keys(), vec![1, 2]);
    assert_eq!(
        engine.registry.render_all()[1],
        "(button   :class 'i3wm-workspace-'\n          :onclick 'i3-msg -t run_command workspace 2'\n          '★')"
    );

    let second = vec![live(1, "1", "M1", false, false, true), live(2, "2;★", "M1", true, false, true)];
    let focus = event(EventKind::Focus, Some(node(2, "2;★", None)), Some(node(1, "1", None)));
    assert!(engine.needs_snapshot(&focus));
    assert_eq!(engine.handle_event(&focus, &second), Ok(true));
    assert_eq!(
        engine.render(),
        format!(
            "{}{}{})",
            BOX_LINE,
            button_line(1, "1", "visible"),
            button_line(2, "★", "focused")
        )
    );
}

#[test]
fn insertion_order_does_not_show() {
    let orders: [[usize; 3]; 6] = [[1, 2, 3], [1, 3, 2], [2, 1, 3], [2, 3, 1], [3, 1, 2], [3, 2, 1]];
    for order in orders {
        let mut registry = Registry::new();
        for key in order {
            registry.upsert(key, get_button(&key, "x", Visibility::Hidden));
        }
        assert_eq!(registry.keys(), vec![1, 2, 3]);
        assert_eq!(
            render_line(&registry.render_all()),
            format!(
                "{}{}{}{})",
                BOX_LINE,
                button_line(1, "x", "hidden"),
                button_line(2, "x", "hidden"),
                button_line(3, "x", "hidden")
            )
        );
    }
}

#[test]
fn urgent_and_empty_ignore_the_snapshot() {
    let snapshots = [
        Vec::new(),
        vec![live(1, "1", "M1", true, false, false)],
        vec![live(1, "1", "M2", false, true, false), live(2, "2", "M1", false, false, true)],
    ];
    let mut lines = Vec::new();
    for snapshot in snapshots {
        let mut engine = Engine::new("M1".to_string());
        let urgent = event(EventKind::Urgent, Some(node(1, "1", None)), None);
        assert_eq!(engine.handle_event(&urgent, &snapshot), Ok(true));
        let urgent = event(EventKind::Urgent, Some(node(2, "2;★", None)), None);
        assert_eq!(engine.handle_event(&urgent, &snapshot), Ok(true));
        let empty = event(EventKind::Empty, Some(node(1, "1", None)), None);
        assert_eq!(engine.handle_event(&empty, &snapshot), Ok(true));
        lines.push(engine.render());
    }
    assert_eq!(lines[0], format!("{}{})", BOX_LINE, button_line(2, "★", "urgent")));
    assert_eq!(lines[0], lines[1]);
    assert_eq!(lines[0], lines[2]);
}

#[test]
fn cache_outlives_a_rename() {
    let mut engine = Engine::new("M1".to_string());
    assert_eq!(engine.seed(&vec![live(1, "1;★", "M1", true, false, false)]), Ok(true));
    let renamed = event(EventKind::Urgent, Some(node(1, "7;✉", None)), None);
    assert_eq!(engine.handle_event(&renamed, &Vec::new()), Ok(true));
    assert_eq!(engine.registry.keys(), vec![1]);
    assert_eq!(engine.render(), format!("{}{})", BOX_LINE, button_line(1, "★", "urgent")));
}
