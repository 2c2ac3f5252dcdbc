use eiderflat::command::{parse_command, split_coordinate, Command, CoordParts};
use eiderflat::document::{units_label, Units};
use eiderflat::tools::{tool_hotkey, tool_prompt, ToolKind};

#[derive(Debug, PartialEq)]
enum CoordInput {
    Absolute(f64, f64),
    Relative(f64, f64),
    PolarAbsolute { dist: f64, angle_deg: f64 },
    PolarRelative { dist: f64, angle_deg: f64 },
}

fn parse_coordinate(input: &str) -> Option<CoordInput> {
    let CoordParts { relative, polar, first, second } = split_coordinate(input)?;
    let a = first.parse::<f64>().ok()?;
    let b = second.parse::<f64>().ok()?;
    Some(match (relative, polar) {
        (false, false) => CoordInput::Absolute(a, b),
        (true, false) => CoordInput::Relative(a, b),
        (false, true) => CoordInput::PolarAbsolute { dist: a, angle_deg: b },
        (true, true) => CoordInput::PolarRelative { dist: a, angle_deg: b },
    })
}

fn zoom_scale(cmd: &Command) -> Option<f64> {
    match cmd {
        Command::ZoomScale(s) => s.parse::<f64>().ok().filter(|v| *v > 0.0),
        _ => None,
    }
}

#[test]
fn parses_drawing_commands() {
    assert!(matches!(parse_command("LINE"), Command::Activate { tool: ToolKind::Line, .. }));
    assert!(matches!(parse_command("l"), Command::Activate { tool: ToolKind::Line, .. }));
    assert!(matches!(parse_command("CIRCLE"), Command::Activate { tool: ToolKind::Circle, .. }));
    assert!(matches!(parse_command("rec"), Command::Activate { tool: ToolKind::Rectangle, .. }));
    assert!(matches!(parse_command("M"), Command::Activate { tool: ToolKind::Move, .. }));
    assert!(matches!(
        parse_command("POLYGON"),
        Command::Activate { tool: ToolKind::Polygon { sides: None }, .. }
    ));
    assert!(matches!(
        parse_command("POL 6"),
        Command::Activate { tool: ToolKind::Polygon { sides: Some(6) }, .. }
    ));
    assert!(matches!(parse_command("SPLINE"), Command::Activate { tool: ToolKind::Spline, .. }));
    assert!(matches!(parse_command("spl"), Command::Activate { tool: ToolKind::Spline, .. }));
    assert!(matches!(
        parse_command("POLYLINE"),
        Command::Activate { tool: ToolKind::Polyline, .. }
    ));
    assert!(matches!(parse_command("pl"), Command::Activate { tool: ToolKind::Polyline, .. }));
}

#[test]
fn parses_zoom() {
    assert!(matches!(parse_command("ZOOM E"), Command::ZoomExtents));
    assert!(matches!(parse_command("zoom extents"), Command::ZoomExtents));
    let z = parse_command("Z 2.5");
    assert!(matches!(zoom_scale(&z), Some(s) if (s - 2.5).abs() < 1e-9));
    assert!(matches!(parse_command("ZOOM"), Command::ZoomExtents));
}

#[test]
fn parses_layer() {
    assert!(matches!(parse_command("LAYER SET walls"), Command::LayerSet(n) if n == "walls"));
    assert!(matches!(parse_command("la new hidden"), Command::LayerNew(n) if n == "hidden"));
}

#[test]
fn parses_coordinates() {
    assert_eq!(parse_coordinate("10,20"), Some(CoordInput::Absolute(10.0, 20.0)));
    assert_eq!(parse_coordinate("  3.5 , -4 "), Some(CoordInput::Absolute(3.5, -4.0)));
    assert_eq!(parse_coordinate("@10,20"), Some(CoordInput::Relative(10.0, 20.0)));
    assert_eq!(parse_coordinate("@-2.5,0"), Some(CoordInput::Relative(-2.5, 0.0)));
    assert_eq!(
        parse_coordinate("5<90"),
        Some(CoordInput::PolarAbsolute { dist: 5.0, angle_deg: 90.0 })
    );
    assert_eq!(
        parse_coordinate("@12<45"),
        Some(CoordInput::PolarRelative { dist: 12.0, angle_deg: 45.0 })
    );
    assert_eq!(parse_coordinate("10"), None);
    assert_eq!(parse_coordinate("LINE"), None);
    assert_eq!(parse_coordinate(""), None);
    assert_eq!(parse_coordinate("@5"), None);
    assert_eq!(parse_coordinate("a,b"), None);
}

#[test]
fn parses_actions_and_unknown() {
    assert!(matches!(parse_command("UNDO"), Command::Undo));
    assert!(matches!(parse_command("u"), Command::Undo));
    assert!(matches!(parse_command("ERASE"), Command::Erase));
    assert!(matches!(parse_command("EXPLODE"), Command::Explode));
    assert!(matches!(parse_command("x"), Command::Explode));
    assert!(matches!(parse_command("JOIN"), Command::Join));
    assert!(matches!(parse_command("j"), Command::Join));
    assert!(matches!(parse_command("HATCH"), Command::Hatch));
    assert!(matches!(parse_command("h"), Command::Hatch));
    assert!(matches!(parse_command("ALL"), Command::SelectAll));
    assert!(matches!(parse_command(""), Command::Cancel));
    assert!(matches!(parse_command("FLERP"), Command::Unknown(_)));
}

#[test]
fn unknown_keeps_the_trimmed_line() {
    assert!(matches!(parse_command("  flerp  now "), Command::Unknown(s) if s == "flerp  now"));
    assert!(matches!(parse_command("\t \u{3000}"), Command::Cancel));
    assert!(matches!(parse_command("LAYER"), Command::Unknown(s) if s == "LAYER"));
    assert!(matches!(parse_command("layer set"), Command::Unknown(s) if s == "LAYER"));
    assert!(matches!(parse_command("layer frob walls"), Command::Unknown(s) if s == "LAYER"));
}

#[test]
fn verbs_need_the_whole_word() {
    assert!(matches!(parse_command("LINES"), Command::Unknown(s) if s == "LINES"));
    assert!(matches!(parse_command("lin"), Command::Unknown(_)));
    assert!(matches!(parse_command("\u{00e9}"), Command::Unknown(_)));
}

#[test]
fn polygon_sides_need_three_or_more() {
    assert!(matches!(
        parse_command("POL 2"),
        Command::Activate { tool: ToolKind::Polygon { sides: None }, .. }
    ));
    assert!(matches!(
        parse_command("pol +3"),
        Command::Activate { tool: ToolKind::Polygon { sides: Some(3) }, .. }
    ));
    assert!(matches!(
        parse_command("pol 007"),
        Command::Activate { tool: ToolKind::Polygon { sides: Some(7) }, .. }
    ));
    assert!(matches!(
        parse_command("pol -5"),
        Command::Activate { tool: ToolKind::Polygon { sides: None }, .. }
    ));
    assert!(matches!(
        parse_command("pol 5x"),
        Command::Activate { tool: ToolKind::Polygon { sides: None }, .. }
    ));
    assert!(matches!(
        parse_command("pol 99999999999999999999999"),
        Command::Activate { tool: ToolKind::Polygon { sides: None }, .. }
    ));
}

#[test]
fn numeric_tools_keep_their_argument() {
    assert!(matches!(
        parse_command("offset 2.5"),
        Command::Activate { tool: ToolKind::Offset, value: Some(v) } if v == "2.5"
    ));
    assert!(matches!(
        parse_command("F"),
        Command::Activate { tool: ToolKind::Fillet, value: None }
    ));
    assert!(matches!(
        parse_command("ttr 4 9"),
        Command::Activate { tool: ToolKind::CircleTtr, value: Some(v) } if v == "4"
    ));
    assert!(matches!(
        parse_command("cha 1"),
        Command::Activate { tool: ToolKind::Chamfer, value: Some(v) } if v == "1"
    ));
    assert!(matches!(
        parse_command("line 5"),
        Command::Activate { tool: ToolKind::Line, value: None }
    ));
}

#[test]
fn zoom_keeps_the_scale_text() {
    assert!(matches!(parse_command("z 3"), Command::ZoomScale(s) if s == "3"));
    assert!(matches!(parse_command("zoom e"), Command::ZoomExtents));
}

#[test]
fn coordinates_split_at_the_first_separator() {
    let p = split_coordinate(" @ 3 < 4,5 ").unwrap();
    assert!(p.relative && p.polar);
    assert_eq!(p.first, "3");
    assert_eq!(p.second, "4,5");
    let q = split_coordinate("1,2,3").unwrap();
    assert!(!q.relative && !q.polar);
    assert_eq!(q.first, "1");
    assert_eq!(q.second, "2,3");
    assert!(split_coordinate("@").is_none());
}

#[test]
fn hotkeys_follow_the_menu() {
    assert_eq!(tool_hotkey(&ToolKind::Select), "Esc");
    assert_eq!(tool_hotkey(&ToolKind::Line), "L");
    assert_eq!(tool_hotkey(&ToolKind::Polygon { sides: Some(5) }), "G");
    assert_eq!(tool_hotkey(&ToolKind::Chamfer), "Shift+H");
    assert_eq!(tool_hotkey(&ToolKind::Dimension), "");
}

#[test]
fn prompts_follow_the_picks() {
    assert_eq!(tool_prompt(&ToolKind::Line, 0), "Specify start point");
    assert_eq!(tool_prompt(&ToolKind::Line, 1), "Specify next point or length");
    assert_eq!(tool_prompt(&ToolKind::Ellipse, 2), "Specify distance to other axis");
    assert_eq!(
        tool_prompt(&ToolKind::Polygon { sides: Some(12) }, 0),
        "Sides: 12 \u{2014} click the center (or type a new count)"
    );
    assert_eq!(
        tool_prompt(&ToolKind::Polygon { sides: None }, 0),
        "Type the number of sides (3+), then click the center"
    );
    assert_eq!(
        tool_prompt(&ToolKind::Spline, 3),
        "Specify next control vertex (3 placed) \u{2014} Enter/right-click finishes, C closes"
    );
    assert_eq!(tool_prompt(&ToolKind::Stretch, 2), "Specify base point");
    assert_eq!(tool_prompt(&ToolKind::Select, 0), "Click an entity, or drag a window");
}

#[test]
fn unit_labels() {
    assert_eq!(units_label(Units::Millimeters), "Millimeters (mm)");
    assert_eq!(units_label(Units::Feet), "Feet (ft)");
    assert_eq!(units_label(Units::Unitless), "Unitless");
}

#[test]
fn del_is_an_erase_alias() {
    assert!(matches!(parse_command("DEL"), Command::Erase));
    assert!(matches!(parse_command("delete"), Command::Erase));
    assert!(matches!(parse_command("e"), Command::Erase));
}

#[test]
fn readme_aliases_name_their_tools() {
    let tools = [
        ("LINE", ToolKind::Line),
        ("L", ToolKind::Line),
        ("POLYLINE", ToolKind::Polyline),
        ("PL", ToolKind::Polyline),
        ("CIRCLE", ToolKind::Circle),
        ("C", ToolKind::Circle),
        ("ARC", ToolKind::Arc3),
        ("A", ToolKind::Arc3),
        ("ELLIPSE", ToolKind::Ellipse),
        ("EL", ToolKind::Ellipse),
        ("RECTANGLE", ToolKind::Rectangle),
        ("REC", ToolKind::Rectangle),
        ("SPLINE", ToolKind::Spline),
        ("SPL", ToolKind::Spline),
        ("TEXT", ToolKind::Text),
        ("T", ToolKind::Text),
        ("MTEXT", ToolKind::Text),
        ("MOVE", ToolKind::Move),
        ("M", ToolKind::Move),
        ("COPY", ToolKind::Copy),
        ("CO", ToolKind::Copy),
        ("ROTATE", ToolKind::Rotate),
        ("RO", ToolKind::Rotate),
        ("SCALE", ToolKind::Scale),
        ("SC", ToolKind::Scale),
        ("MIRROR", ToolKind::Mirror),
        ("MI", ToolKind::Mirror),
        ("OFFSET", ToolKind::Offset),
        ("O", ToolKind::Offset),
        ("TRIM", ToolKind::Trim),
        ("TR", ToolKind::Trim),
        ("EXTEND", ToolKind::Extend),
        ("EX", ToolKind::Extend),
        ("FILLET", ToolKind::Fillet),
        ("F", ToolKind::Fillet),
        ("CHAMFER", ToolKind::Chamfer),
        ("CHA", ToolKind::Chamfer),
        ("STRETCH", ToolKind::Stretch),
        ("S", ToolKind::Stretch),
        ("SELECT", ToolKind::Select),
        ("SE", ToolKind::Select),
    ];
    for (verb, tool) in tools {
        match parse_command(verb) {
            Command::Activate { tool: t, .. } => assert_eq!(t, tool, "{verb}"),
            other => panic!("{verb} gave {other:?}"),
        }
    }
    for verb in ["POLYGON", "POL"] {
        assert!(matches!(
            parse_command(verb),
            Command::Activate { tool: ToolKind::Polygon { sides: None }, .. }
        ));
    }
    for verb in ["ERASE", "E", "DEL"] {
        assert!(matches!(parse_command(verb), Command::Erase), "{verb}");
    }
    for verb in ["EXPLODE", "X"] {
        assert!(matches!(parse_command(verb), Command::Explode), "{verb}");
    }
    for verb in ["JOIN", "J"] {
        assert!(matches!(parse_command(verb), Command::Join), "{verb}");
    }
    for verb in ["HATCH", "H"] {
        assert!(matches!(parse_command(verb), Command::Hatch), "{verb}");
    }
    for verb in ["UNDO", "U"] {
        assert!(matches!(parse_command(verb), Command::Undo), "{verb}");
    }
    assert!(matches!(parse_command("REDO"), Command::Redo));
    assert!(matches!(parse_command("ALL"), Command::SelectAll));
    for verb in ["ZOOM", "Z"] {
        assert!(matches!(parse_command(verb), Command::ZoomExtents), "{verb}");
    }
    for verb in ["LAYER", "LA"] {
        assert!(matches!(parse_command(verb), Command::Unknown(s) if s == "LAYER"), "{verb}");
    }
}

#[test]
fn other_aliases_name_their_tools() {
    let tools = [
        ("ARCSCE", ToolKind::ArcStartCenterEnd),
        ("asce", ToolKind::ArcStartCenterEnd),
        ("ARCCSE", ToolKind::ArcCenterStartEnd),
        ("ACSE", ToolKind::ArcCenterStartEnd),
        ("CIRCLE2P", ToolKind::CircleTwoPoint),
        ("c2p", ToolKind::CircleTwoPoint),
        ("CIRCLE3P", ToolKind::CircleThreePoint),
        ("C3P", ToolKind::CircleThreePoint),
        ("TTR", ToolKind::CircleTtr),
        ("CIRCLETTR", ToolKind::CircleTtr),
        ("TTT", ToolKind::CircleTtt),
        ("circlettt", ToolKind::CircleTtt),
        ("TANGENT", ToolKind::TangentLine),
        ("TAN", ToolKind::TangentLine),
        ("DIMENSION", ToolKind::Dimension),
        ("DIM", ToolKind::Dimension),
        ("DIMLINEAR", ToolKind::Dimension),
        ("DIMALIGNED", ToolKind::Dimension),
        ("RECTANG", ToolKind::Rectangle),
        ("CP", ToolKind::Copy),
        ("PLINE", ToolKind::Polyline),
        ("DT", ToolKind::Text),
        ("DTEXT", ToolKind::Text),
        ("MT", ToolKind::Text),
    ];
    for (verb, tool) in tools {
        match parse_command(verb) {
            Command::Activate { tool: t, .. } => assert_eq!(t, tool, "{verb}"),
            other => panic!("{verb} gave {other:?}"),
        }
    }
    assert!(matches!(parse_command("disjoint"), Command::Explode));
}

#[test]
fn surrounding_blanks_change_nothing() {
    assert!(matches!(parse_command(" \t pol 5 \n"), Command::Activate { tool: ToolKind::Polygon { sides: Some(5) }, .. }));
    assert!(matches!(parse_command("\u{a0}frob\u{2003}"), Command::Unknown(s) if s == "frob"));
    assert!(matches!(parse_command("\u{a0}frob\u{2003}x "), Command::Unknown(s) if s == "frob\u{2003}x"));
}
