use eiderflat::document::{BoundingBox, Document, EntityId, KindTag, Layer};
use eiderflat::history::History;
use eiderflat::input::{command_line_action, LineAction, NumberReading};
use eiderflat::session::Session;
use eiderflat::tools::ToolKind;

fn bb(x0: i64, y0: i64, x1: i64, y1: i64) -> Option<BoundingBox> {
    Some(BoundingBox { min_x: x0, min_y: y0, max_x: x1, max_y: y1 })
}

fn app() -> Session {
    Session::new()
}

/// Runs a typed line the way the command line does with the select tool.
fn run_command(a: &mut Session, text: &str) {
    let (action, _) =
        command_line_action(&ToolKind::Select, 0, false, NumberReading::NotANumber, false, text);
    if let LineAction::Run { command, .. } = action {
        a.apply_command(&command);
    }
}

#[test]
fn undo_redo_through_state() {
    let mut a = app();
    a.add_entity(KindTag::Curve, bb(0, 0, 1, 1));
    assert_eq!(a.document.len(), 2);
    a.undo();
    assert_eq!(a.document.len(), 1);
    a.redo();
    assert_eq!(a.document.len(), 2);
}

#[test]
fn erase_removes_selection() {
    let mut a = app();
    let id = a.add_entity(KindTag::Curve, bb(0, 0, 2, 2));
    a.selection = vec![id];
    run_command(&mut a, "ERASE");
    assert_eq!(a.document.len(), 1);
}

#[test]
fn select_all_then_erase() {
    let mut a = app();
    a.add_entity(KindTag::Curve, bb(0, 0, 1, 0));
    a.add_entity(KindTag::Curve, bb(0, 0, 0, 1));
    run_command(&mut a, "ALL");
    assert_eq!(a.selection.len(), 2);
    run_command(&mut a, "ERASE");
    assert_eq!(a.document.len(), 1);
}

#[test]
fn layer_commands() {
    let mut a = app();
    run_command(&mut a, "LAYER NEW walls");
    assert_eq!(a.document.current_layer_name(), "walls");
    run_command(&mut a, "LAYER SET 0");
    assert_eq!(a.document.current_layer_name(), "0");
}

#[test]
fn origin_cannot_be_selected_or_erased() {
    let mut a = app();
    let origin = a.origin_id;
    assert!(a.document.contains(origin));
    a.toggle_selection(origin);
    assert!(!a.selection.contains(&origin));
    a.selection = vec![origin];
    a.erase_selection();
    assert!(a.document.contains(origin));
}

#[test]
fn undo_after_add_restores_the_drawing() {
    let mut a = app();
    let before: Vec<EntityId> = a.document.entities.iter().map(|e| e.id).collect();
    let id = a.add_entity(KindTag::Text, None);
    assert!(a.document.contains(id));
    a.undo();
    let after: Vec<EntityId> = a.document.entities.iter().map(|e| e.id).collect();
    assert_eq!(before, after);
    assert!(!a.document.contains(id));
}

#[test]
fn erase_then_undo_brings_entities_back() {
    let mut a = app();
    let x = a.add_entity(KindTag::Curve, bb(0, 0, 1, 1));
    let y = a.add_entity(KindTag::Curve, bb(2, 2, 3, 3));
    a.selection = vec![x, a.origin_id];
    a.erase_selection();
    assert!(!a.document.contains(x));
    assert!(a.document.contains(y));
    assert!(a.document.contains(a.origin_id));
    assert!(a.selection.is_empty());
    a.undo();
    assert!(a.document.contains(x));
    assert_eq!(a.document.len(), 3);
}

#[test]
fn erasing_nothing_changes_nothing() {
    let mut a = app();
    a.add_entity(KindTag::Curve, bb(0, 0, 1, 1));
    a.erase_selection();
    assert_eq!(a.document.len(), 2);
    a.undo();
    assert_eq!(a.document.len(), 1);
}

#[test]
fn toggling_twice_restores_the_selection() {
    let mut a = app();
    let x = a.add_entity(KindTag::Curve, bb(0, 0, 1, 1));
    let y = a.add_entity(KindTag::Curve, bb(0, 0, 1, 1));
    a.toggle_selection(x);
    a.toggle_selection(y);
    assert_eq!(a.selection, vec![x, y]);
    a.toggle_selection(x);
    assert_eq!(a.selection, vec![y]);
    a.toggle_selection(x);
    assert_eq!(a.selection, vec![y, x]);
}

#[test]
fn dirty_tracks_saves_and_undo() {
    let mut a = app();
    assert!(!a.is_dirty());
    assert_eq!(a.document_label(None), "Untitled");
    a.add_entity(KindTag::Curve, bb(0, 0, 1, 1));
    assert!(a.is_dirty());
    assert_eq!(a.document_label(Some("plan.e2d")), "plan.e2d*");
    a.mark_saved();
    assert!(!a.is_dirty());
    assert_eq!(a.window_title(Some("plan.e2d")), "eiderFLAT \u{2014} plan.e2d");
    a.add_entity(KindTag::Curve, bb(0, 0, 1, 1));
    assert!(a.is_dirty());
    a.undo();
    assert!(!a.is_dirty());
}

#[test]
fn new_layers_take_new_entities() {
    let mut a = app();
    a.new_layer("walls".to_string());
    let id = a.add_entity(KindTag::Curve, bb(0, 0, 1, 1));
    let e = a.document.entities.iter().find(|e| e.id == id).unwrap();
    assert_eq!(e.layer, 5);
    a.set_layer("no such layer");
    assert_eq!(a.document.current_layer_name(), "walls");
}

#[test]
fn history_steps_back_and_forth() {
    let mut h = History::new();
    let mut d = Document::new();
    assert!(h.undo(&d).is_none());
    h.snapshot(&d);
    d.add(KindTag::Point, None);
    let back = h.undo(&d).unwrap();
    assert_eq!(back.len(), 0);
    let fwd = h.redo(&back).unwrap();
    assert_eq!(fwd.len(), 1);
    assert!(h.redo(&fwd).is_none());
    assert_eq!(h.undo_depth(), 1);
}

#[test]
fn layer_lookup_takes_the_first_match() {
    let mut d = Document::new();
    d.add_layer(Layer::new("a".to_string()));
    d.add_layer(Layer::new("a".to_string()));
    d.set_current_layer("a");
    assert_eq!(d.current_layer, 1);
}
