use eiderflat::command::Command;
use eiderflat::dispatch::{ExecOutcome, RunOutcome};
use eiderflat::document::{BoundingBox, KindTag, Rgb};
use eiderflat::input::NumberReading;
use eiderflat::selection::select_window;
use eiderflat::session::Session;
use eiderflat::tools::{tool_prompt, PointerAids, ToolKind};

const NAN: NumberReading = NumberReading::NotANumber;

fn bb() -> Option<BoundingBox> {
    Some(BoundingBox { min_x: 0, min_y: 0, max_x: 1, max_y: 1 })
}

fn run(s: &mut Session, text: &str) -> RunOutcome {
    s.run_command(text, 0, false, NAN, false, None)
}

#[test]
fn new_session_starts_with_the_default_layers_and_origin() {
    let s = Session::new();
    let names: Vec<&str> = s.document.layers.iter().map(|l| l.name.as_str()).collect();
    assert_eq!(names, vec!["0", "Dimensions", "Centerlines", "Construction", "Hidden"]);
    assert_eq!(s.document.layers[2].color, Rgb { r: 232, g: 134, b: 108 });
    assert_eq!(s.origin_id.0, 1);
    assert_eq!(s.document.next_id, 2);
    assert!(matches!(s.tool, ToolKind::Select));
}

#[test]
fn right_click_repeat_reactivates_last_command() {
    let mut a = Session::new();
    run(&mut a, "CIRCLE");
    assert!(matches!(a.tool, ToolKind::Circle));
    assert_eq!(a.last_command.as_deref(), Some("CIRCLE"));
    run(&mut a, "");
    assert!(matches!(a.tool, ToolKind::Select));
    let r = a.repeat_last_command(0, false, NAN, false, None);
    assert!(matches!(r, Some(RunOutcome::Executed(ExecOutcome::Done))));
    assert!(matches!(a.tool, ToolKind::Circle));
    assert_eq!(a.command_log, vec!["CIRCLE", "", "CIRCLE"]);
}

#[test]
fn modify_tools_take_the_selection() {
    let mut a = Session::new();
    let x = a.add_entity(KindTag::Curve, bb());
    a.toggle_selection(x);
    run(&mut a, "move");
    assert!(matches!(a.tool, ToolKind::Move));
    assert_eq!(a.tool_ids, vec![x]);
    run(&mut a, "line");
    assert!(a.tool_ids.is_empty());
    run(&mut a, "offset 2.5");
    assert_eq!(a.tool_value.as_deref(), Some("2.5"));
}

#[test]
fn cancel_clears_the_selection_only_from_select() {
    let mut a = Session::new();
    let x = a.add_entity(KindTag::Curve, bb());
    a.toggle_selection(x);
    run(&mut a, "line");
    run(&mut a, " ");
    assert!(matches!(a.tool, ToolKind::Select));
    assert_eq!(a.selection, vec![x]);
    run(&mut a, "");
    assert!(a.selection.is_empty());
    assert_eq!(a.last_command, Some("line".to_string()));
}

#[test]
fn hatch_starts_the_tool_or_hatches_the_selection() {
    let mut a = Session::new();
    assert!(matches!(a.execute(Command::Hatch), ExecOutcome::Done));
    assert!(matches!(a.tool, ToolKind::Hatch));
    let x = a.add_entity(KindTag::Curve, bb());
    a.selection = vec![x];
    assert!(matches!(a.execute(Command::Hatch), ExecOutcome::HatchSelection));
    assert!(matches!(run(&mut a, "x"), RunOutcome::Executed(ExecOutcome::Explode)));
    assert!(matches!(run(&mut a, "z 3"), RunOutcome::Executed(ExecOutcome::ZoomScale(t)) if t == "3"));
}

#[test]
fn typed_lines_drive_the_tool() {
    let mut a = Session::new();
    run(&mut a, "pol");
    let r = a.run_command("6", 0, false, NumberReading::Number { positive: true }, false, None);
    assert!(matches!(r, RunOutcome::Nothing));
    assert!(matches!(a.tool, ToolKind::Polygon { sides: Some(6) }));
    run(&mut a, "pl");
    let r = a.run_command("", 3, true, NAN, false, None);
    assert!(matches!(r, RunOutcome::CommitPath { close: false }));
    assert!(matches!(a.tool, ToolKind::Select));
    run(&mut a, "text");
    let before = a.document.len();
    let r = a.run_command("Hello\\nWorld", 1, true, NAN, false, bb());
    let RunOutcome::TextPlaced(id) = r else { panic!("expected a text") };
    assert_eq!(a.document.len(), before + 1);
    let e = a.document.entities.last().unwrap();
    assert_eq!(e.id, id);
    assert!(matches!(e.kind, KindTag::Text));
    assert_eq!(a.document.texts[e.text.unwrap()], "Hello\nWorld");
    assert!(matches!(a.tool, ToolKind::Select));
    let r = a.run_command("3,4", 0, false, NAN, true, None);
    assert!(matches!(r, RunOutcome::Point(p) if p.first == "3" && p.second == "4"));
}

#[test]
fn layer_panel_adds_renames_and_deletes() {
    let mut a = Session::new();
    let i = a.add_numbered_layer();
    assert_eq!(i, 5);
    assert_eq!(a.document.layers[5].name, "Layer5");
    a.set_current_layer_index(2);
    a.set_layer_visible(3, false);
    assert!(!a.document.layers[3].visible);
    a.rename_layer(4, "Hidden lines".to_string());
    assert_eq!(a.document.layers[4].name, "Hidden lines");
    a.set_layer_color(1, Rgb { r: 1, g: 2, b: 3 });
    assert_eq!(a.document.layers[1].color, Rgb { r: 1, g: 2, b: 3 });
    a.set_current_layer_index(3);
    let on3 = a.add_entity(KindTag::Curve, bb());
    a.set_current_layer_index(4);
    let on4 = a.add_entity(KindTag::Curve, bb());
    assert_eq!(a.layer_counts(), vec![1, 0, 0, 1, 1, 0]);
    assert!(!a.delete_layer(0));
    assert!(!a.delete_layer(4));
    assert!(!a.delete_layer(9));
    assert!(a.delete_layer(3));
    assert_eq!(a.document.layers.len(), 5);
    assert_eq!(a.document.current_layer_name(), "Hidden lines");
    let layer_of = |s: &Session, id| s.document.entities.iter().find(|e| e.id == id).unwrap().layer;
    assert_eq!(layer_of(&a, on3), 0);
    assert_eq!(layer_of(&a, on4), 3);
    assert_eq!(a.layer_counts(), vec![2, 0, 0, 1, 0]);
    a.undo();
    assert_eq!(a.document.layers.len(), 6);
    assert_eq!(layer_of(&a, on3), 3);
}

#[test]
fn construction_tools_show_the_select_prompt() {
    assert_eq!(tool_prompt(&ToolKind::CircleTtr, 1), "Click an entity, or drag a window");
}

#[test]
fn polar_and_ortho_exclude_each_other() {
    let mut a = PointerAids::new();
    assert!(a.polar && !a.ortho);
    a.set_ortho(true);
    assert!(a.ortho && !a.polar);
    a.set_polar(true);
    assert!(a.polar && !a.ortho);
    a.set_polar(false);
    assert!(!a.polar && !a.ortho);
}

#[test]
fn text_tool_places_text_entity() {
    let mut a = Session::new();
    run(&mut a, "TEXT");
    assert!(matches!(a.tool, ToolKind::Text));
    // The canvas click that anchors the text is one placed point.
    let r = a.run_command("Hello\\nWorld", 1, true, NAN, false, bb());
    assert!(matches!(a.tool, ToolKind::Select));
    let RunOutcome::TextPlaced(id) = r else { panic!("expected a text") };
    let e = a.document.entities.iter().find(|e| e.id == id).expect("a Text entity should be created");
    assert_eq!(a.document.texts[e.text.unwrap()], "Hello\nWorld");
    a.undo();
    assert!(!a.document.contains(id));
}

#[test]
fn selections_list_each_entity_once() {
    let mut a = Session::new();
    for _ in 0..3 {
        a.add_entity(KindTag::Curve, bb());
    }
    let r = select_window(&a.document, &BoundingBox { min_x: -1, min_y: -1, max_x: 2, max_y: 2 });
    let mut seen = r.clone();
    seen.sort();
    seen.dedup();
    assert_eq!(seen.len(), r.len());
    assert_eq!(r.len(), 4);
}
