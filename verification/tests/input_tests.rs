use eiderflat::command::Command;
use eiderflat::input::{command_line_action, unescape_newlines, LineAction, NumberReading};
use eiderflat::tools::ToolKind;

const NAN: NumberReading = NumberReading::NotANumber;

#[test]
fn text_tool_takes_the_line_as_content() {
    let (a, log) = command_line_action(&ToolKind::Text, 1, true, NAN, false, "  hi\\nthere ");
    assert!(matches!(a, LineAction::PlaceText(t) if t == "hi\nthere"));
    assert_eq!(log.as_deref(), Some("hi\\nthere"));
    let (a, log) = command_line_action(&ToolKind::Text, 1, true, NAN, false, "   ");
    assert!(matches!(a, LineAction::EndText));
    assert_eq!(log.as_deref(), Some(""));
}

#[test]
fn text_tool_without_anchor_runs_commands() {
    let (a, _) = command_line_action(&ToolKind::Text, 0, false, NAN, false, "line");
    assert!(matches!(
        a,
        LineAction::Run { command: Command::Activate { tool: ToolKind::Line, .. }, remember: true }
    ));
}

#[test]
fn paths_finish_on_empty_and_close_on_c() {
    let (a, log) = command_line_action(&ToolKind::Polyline, 2, true, NAN, false, "");
    assert!(matches!(a, LineAction::FinishPath));
    assert!(log.is_none());
    let (a, log) = command_line_action(&ToolKind::Spline, 3, true, NAN, false, " c ");
    assert!(matches!(a, LineAction::ClosePath));
    assert_eq!(log.as_deref(), Some("c"));
    let (a, _) = command_line_action(&ToolKind::Polyline, 3, true, NAN, false, "Close");
    assert!(matches!(a, LineAction::ClosePath));
}

#[test]
fn polygon_takes_a_side_count_before_its_center() {
    let num = NumberReading::Number { positive: true };
    let (a, _) = command_line_action(&ToolKind::Polygon { sides: None }, 0, false, num, false, "7");
    assert!(matches!(a, LineAction::SetPolygonSides(7)));
    let (a, _) = command_line_action(&ToolKind::Polygon { sides: None }, 1, true, num, false, "7");
    assert!(matches!(a, LineAction::StepFromReference));
    let (a, _) = command_line_action(&ToolKind::Polygon { sides: None }, 0, false, num, false, "2");
    assert!(matches!(a, LineAction::Run { command: Command::Unknown(_), remember: false }));
}

#[test]
fn positive_numbers_set_tool_values() {
    let pos = NumberReading::Number { positive: true };
    let neg = NumberReading::Number { positive: false };
    let (a, _) = command_line_action(&ToolKind::Offset, 0, false, pos, false, "2.5");
    assert!(matches!(a, LineAction::SetToolValue));
    let (a, _) = command_line_action(&ToolKind::Fillet, 1, true, neg, false, "-1");
    assert!(matches!(a, LineAction::StepFromReference));
    let (a, _) = command_line_action(&ToolKind::Line, 1, true, pos, false, "10");
    assert!(matches!(a, LineAction::StepFromReference));
}

#[test]
fn coordinates_are_points_when_they_read() {
    let (a, _) = command_line_action(&ToolKind::Line, 0, false, NAN, true, "@3<45");
    assert!(matches!(a, LineAction::Point(p) if p.relative && p.polar && p.first == "3" && p.second == "45"));
    let (a, _) = command_line_action(&ToolKind::Line, 0, false, NAN, false, "a,b");
    assert!(matches!(a, LineAction::Run { command: Command::Unknown(s), remember: false } if s == "a,b"));
}

#[test]
fn commands_are_remembered_unless_blank_or_unknown() {
    let (a, log) = command_line_action(&ToolKind::Select, 0, false, NAN, false, " zoom e ");
    assert!(matches!(a, LineAction::Run { command: Command::ZoomExtents, remember: true }));
    assert_eq!(log.as_deref(), Some("zoom e"));
    let (a, _) = command_line_action(&ToolKind::Select, 0, false, NAN, false, "  ");
    assert!(matches!(a, LineAction::Run { command: Command::Cancel, remember: false }));
}

#[test]
fn unescape_replaces_each_escape() {
    assert_eq!(unescape_newlines("a\\nb\\n"), "a\nb\n");
    assert_eq!(unescape_newlines("\\\\n"), "\\\n");
    assert_eq!(unescape_newlines("\\"), "\\");
    assert_eq!(unescape_newlines("caf\u{e9}\\n"), "caf\u{e9}\n");
}
