use eiderflat::command::Command;
use eiderflat::menus::{draw_entries, modify_entries, Act};
use eiderflat::tools::{tool_hotkey, ToolKind};
use eiderflat::document::Rgb;
use eiderflat::text::replace_all;
use eiderflat::ui::{hex, recolour, Icon};

#[test]
fn dock_lists_the_drawing_tools_in_order() {
    let e = draw_entries();
    assert_eq!(e.len(), 10);
    assert_eq!(e[0].0, Icon::Select);
    assert_eq!(e[0].1, "Select  (Esc)");
    assert!(matches!(e[7].2, Act::Tool(ToolKind::Polygon { sides: None })));
    assert_eq!(e[9].1, "Text  (T)");
}

#[test]
fn modify_menu_ends_with_commands() {
    let e = modify_entries();
    assert_eq!(e.len(), 14);
    assert!(matches!(e[11].2, Act::Cmd(Command::Explode)));
    assert!(matches!(e[12].2, Act::Cmd(Command::Join)));
    assert!(matches!(e[13].2, Act::Cmd(Command::Hatch)));
    assert_eq!(e[13].0, Icon::Hatch);
}

#[test]
fn tooltips_show_the_tool_hotkeys() {
    for (_, label, act) in draw_entries().into_iter().chain(modify_entries()) {
        if let Act::Tool(t) = act {
            let key = tool_hotkey(&t);
            assert!(label.contains(&format!("({key})")), "{label} lacks {key}");
        }
    }
}

#[test]
fn entries_turn_into_commands() {
    let mut e = draw_entries();
    let (_, _, act) = e.remove(1);
    assert!(matches!(act.into_command(), Command::Activate { tool: ToolKind::Line, value: None }));
    let mut m = modify_entries();
    let (_, _, act) = m.remove(12);
    assert!(matches!(act.into_command(), Command::Join));
}

#[test]
fn colours_print_as_lowercase_hex() {
    assert_eq!(hex(Rgb { r: 255, g: 0, b: 171 }), "#ff00ab");
    assert_eq!(hex(Rgb { r: 7, g: 16, b: 200 }), "#0710c8");
}

#[test]
fn recolour_swaps_accent_and_foreground() {
    let src = "<path style=\"fill: #ec2024\"/><path style=\"stroke: red\"/><g style=\"fill: #000\"/>";
    let out = recolour(src, Rgb { r: 1, g: 2, b: 3 }, Rgb { r: 255, g: 128, b: 0 });
    assert_eq!(
        out,
        "<path style=\"fill: #ff8000\"/><path style=\"stroke: #ff8000\"/><g style=\"fill: #010203\"/>"
    );
    assert_eq!(recolour("no colours", Rgb { r: 0, g: 0, b: 0 }, Rgb { r: 0, g: 0, b: 0 }), "no colours");
}

#[test]
fn replace_all_matches_str_replace() {
    for (s, p, r) in [
        ("aaaa", "aa", "b"),
        ("abcabc", "bc", ""),
        ("\u{e9}x\u{e9}", "\u{e9}", "e"),
        ("aaa", "aa", "aaa"),
        ("", "x", "y"),
    ] {
        assert_eq!(replace_all(s, p, r), s.replace(p, r), "{s} {p} {r}");
    }
}
