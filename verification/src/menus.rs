//! The tool dock and the modify menu: which icon, which tooltip and which
//! action each entry carries.
use vstd::prelude::*;
use crate::command::{Command, CommandModel};
use crate::tools::{hotkey, ToolKind};
use crate::ui::Icon;

verus! {

/// What a menu entry does: activate a tool, or run a command.
pub enum Act {
    Tool(ToolKind),
    Cmd(Command),
}

/// A menu entry's action as contracts see it.
pub enum ActModel {
    Tool(ToolKind),
    Cmd(CommandModel),
}

impl View for Act {
    type V = ActModel;

    open spec fn view(&self) -> ActModel {
        match self {
            Act::Tool(t) => ActModel::Tool(*t),
            Act::Cmd(c) => ActModel::Cmd(c@),
        }
    }
}

/// A menu entry as contracts see it.
pub open spec fn entry_view(e: (Icon, &'static str, Act)) -> (Icon, Seq<char>, ActModel) {
    (e.0, e.1@, e.2@)
}

/// The drawing tools of the dock, in order.
pub open spec fn draw_table() -> Seq<(Icon, Seq<char>, ActModel)> {
    seq![
        (Icon::Select, "Select  (Esc)"@, ActModel::Tool(ToolKind::Select)),
        (Icon::Line, "Line  (L)"@, ActModel::Tool(ToolKind::Line)),
        (Icon::Polyline, "Polyline  (P)"@, ActModel::Tool(ToolKind::Polyline)),
        (Icon::Circle, "Circle  (C)"@, ActModel::Tool(ToolKind::Circle)),
        (
            Icon::Ellipse,
            "Ellipse  (E) \u{2014} center, axis end, then minor axis"@,
            ActModel::Tool(ToolKind::Ellipse),
        ),
        (Icon::Arc, "Arc \u{2014} 3 points  (A)"@, ActModel::Tool(ToolKind::Arc3)),
        (Icon::Rectangle, "Rectangle  (R)"@, ActModel::Tool(ToolKind::Rectangle)),
        (Icon::Polygon, "Polygon  (G)"@, ActModel::Tool(ToolKind::Polygon { sides: None })),
        (Icon::Spline, "Spline  (S)"@, ActModel::Tool(ToolKind::Spline)),
        (Icon::Text, "Text  (T)"@, ActModel::Tool(ToolKind::Text)),
    ]
}

/// The modify tools and commands, in order.
pub open spec fn modify_table() -> Seq<(Icon, Seq<char>, ActModel)> {
    seq![
        (Icon::Move, "Move selection  (Shift+M)"@, ActModel::Tool(ToolKind::Move)),
        (Icon::Copy, "Copy selection  (Shift+C)"@, ActModel::Tool(ToolKind::Copy)),
        (Icon::Rotate, "Rotate selection  (Shift+R)"@, ActModel::Tool(ToolKind::Rotate)),
        (Icon::Scale, "Scale selection  (Shift+A)"@, ActModel::Tool(ToolKind::Scale)),
        (Icon::Mirror, "Mirror selection  (Shift+I)"@, ActModel::Tool(ToolKind::Mirror)),
        (
            Icon::Offset,
            "Offset  (Shift+O) \u{2014} type a distance, click curve, click side"@,
            ActModel::Tool(ToolKind::Offset),
        ),
        (Icon::Trim, "Trim  (Shift+T) \u{2014} click the piece to cut"@, ActModel::Tool(ToolKind::Trim)),
        (
            Icon::Extend,
            "Extend  (Shift+E) \u{2014} click the end to lengthen"@,
            ActModel::Tool(ToolKind::Extend),
        ),
        (
            Icon::Fillet,
            "Fillet  (Shift+F) \u{2014} type radius, pick 2 lines"@,
            ActModel::Tool(ToolKind::Fillet),
        ),
        (
            Icon::Chamfer,
            "Chamfer  (Shift+H) \u{2014} type distance, pick 2 lines"@,
            ActModel::Tool(ToolKind::Chamfer),
        ),
        (
            Icon::Stretch,
            "Stretch  (Shift+S) \u{2014} window, then base\u{2192}destination"@,
            ActModel::Tool(ToolKind::Stretch),
        ),
        (
            Icon::Explode,
            "Disjoint  (Shift+X) \u{2014} break a polyline/polygon/rectangle into lines"@,
            ActModel::Cmd(CommandModel::Explode),
        ),
        (
            Icon::Join,
            "Join  (Shift+J) \u{2014} merge selected connected curves"@,
            ActModel::Cmd(CommandModel::Join),
        ),
        (
            Icon::Hatch,
            "Hatch  (H) \u{2014} fill selected boundaries, or click inside an area"@,
            ActModel::Cmd(CommandModel::Hatch),
        ),
    ]
}

/// The entries of the tool dock: icon, tooltip, action.
pub fn draw_entries() -> (r: Vec<(Icon, &'static str, Act)>)
    ensures
        r@.map_values(|e: (Icon, &'static str, Act)| entry_view(e)) == draw_table(),
{
    let mut v: Vec<(Icon, &'static str, Act)> = Vec::new();
    v.push((Icon::Select, "Select  (Esc)", Act::Tool(ToolKind::Select)));
    v.push((Icon::Line, "Line  (L)", Act::Tool(ToolKind::Line)));
    v.push((Icon::Polyline, "Polyline  (P)", Act::Tool(ToolKind::Polyline)));
    v.push((Icon::Circle, "Circle  (C)", Act::Tool(ToolKind::Circle)));
    v.push(
        (
            Icon::Ellipse,
            "Ellipse  (E) \u{2014} center, axis end, then minor axis",
            Act::Tool(ToolKind::Ellipse),
        ),
    );
    v.push((Icon::Arc, "Arc \u{2014} 3 points  (A)", Act::Tool(ToolKind::Arc3)));
    v.push((Icon::Rectangle, "Rectangle  (R)", Act::Tool(ToolKind::Rectangle)));
    v.push((Icon::Polygon, "Polygon  (G)", Act::Tool(ToolKind::Polygon { sides: None })));
    v.push((Icon::Spline, "Spline  (S)", Act::Tool(ToolKind::Spline)));
    v.push((Icon::Text, "Text  (T)", Act::Tool(ToolKind::Text)));
    assert(v@.map_values(|e: (Icon, &'static str, Act)| entry_view(e)) =~= draw_table());
    v
}

/// The entries of the modify menu: icon, tooltip, action.
pub fn modify_entries() -> (r: Vec<(Icon, &'static str, Act)>)
    ensures
        r@.map_values(|e: (Icon, &'static str, Act)| entry_view(e)) == modify_table(),
{
    let mut v: Vec<(Icon, &'static str, Act)> = Vec::new();
    v.push((Icon::Move, "Move selection  (Shift+M)", Act::Tool(ToolKind::Move)));
    v.push((Icon::Copy, "Copy selection  (Shift+C)", Act::Tool(ToolKind::Copy)));
    v.push((Icon::Rotate, "Rotate selection  (Shift+R)", Act::Tool(ToolKind::Rotate)));
    v.push((Icon::Scale, "Scale selection  (Shift+A)", Act::Tool(ToolKind::Scale)));
    v.push((Icon::Mirror, "Mirror selection  (Shift+I)", Act::Tool(ToolKind::Mirror)));
    v.push(
        (
            Icon::Offset,
            "Offset  (Shift+O) \u{2014} type a distance, click curve, click side",
            Act::Tool(ToolKind::Offset),
        ),
    );
    v.push((Icon::Trim, "Trim  (Shift+T) \u{2014} click the piece to cut", Act::Tool(ToolKind::Trim)));
    v.push(
        (Icon::Extend, "Extend  (Shift+E) \u{2014} click the end to lengthen", Act::Tool(ToolKind::Extend)),
    );
    v.push(
        (Icon::Fillet, "Fillet  (Shift+F) \u{2014} type radius, pick 2 lines", Act::Tool(ToolKind::Fillet)),
    );
    v.push(
        (
            Icon::Chamfer,
            "Chamfer  (Shift+H) \u{2014} type distance, pick 2 lines",
            Act::Tool(ToolKind::Chamfer),
        ),
    );
    v.push(
        (
            Icon::Stretch,
            "Stretch  (Shift+S) \u{2014} window, then base\u{2192}destination",
            Act::Tool(ToolKind::Stretch),
        ),
    );
    v.push(
        (
            Icon::Explode,
            "Disjoint  (Shift+X) \u{2014} break a polyline/polygon/rectangle into lines",
            Act::Cmd(Command::Explode),
        ),
    );
    v.push(
        (Icon::Join, "Join  (Shift+J) \u{2014} merge selected connected curves", Act::Cmd(Command::Join)),
    );
    v.push(
        (
            Icon::Hatch,
            "Hatch  (H) \u{2014} fill selected boundaries, or click inside an area",
            Act::Cmd(Command::Hatch),
        ),
    );
    assert(v@.map_values(|e: (Icon, &'static str, Act)| entry_view(e)) =~= modify_table());
    v
}

impl Act {
    /// The command that the entry runs: a tool entry activates its tool with
    /// no typed value.
    pub fn into_command(self) -> (c: Command)
        ensures
            c@ == match self@ {
                ActModel::Tool(t) => CommandModel::Activate { tool: t, value: None },
                ActModel::Cmd(m) => m,
            },
    {
        match self {
            Act::Tool(t) => Command::Activate { tool: t, value: None },
            Act::Cmd(c) => c,
        }
    }
}


/// `label` shows `key` in brackets.
pub open spec fn shows_key(label: Seq<char>, key: Seq<char>) -> bool {
    exists|k: int|
        0 <= k && k + key.len() + 2 <= label.len() && #[trigger] label.subrange(k, k + key.len() + 2)
            == seq!['('] + key + seq![')']
}

/// Every tool entry of the dock and of the modify menu shows its tool's
/// hotkey, in brackets, in its tooltip.
pub proof fn lemma_labels_show_hotkeys()
    ensures
        forall|i: int|
            0 <= i < draw_table().len() && (#[trigger] draw_table()[i]).2 is Tool ==> shows_key(
                draw_table()[i].1,
                hotkey(draw_table()[i].2->Tool_0),
            ),
        forall|i: int|
            0 <= i < modify_table().len() && (#[trigger] modify_table()[i]).2 is Tool ==> shows_key(
                modify_table()[i].1,
                hotkey(modify_table()[i].2->Tool_0),
            ),
{
    assert(shows_key(draw_table()[0].1, hotkey(draw_table()[0].2->Tool_0))) by {
        reveal_strlit("Select  (Esc)");
        reveal_strlit("Esc");
        let label = draw_table()[0].1;
        let key = hotkey(draw_table()[0].2->Tool_0);
        assert(key == "Esc"@);
        assert(label.subrange(8, 8int + key.len() + 2) =~= seq!['('] + key + seq![')']);
    }
    assert(shows_key(draw_table()[1].1, hotkey(draw_table()[1].2->Tool_0))) by {
        reveal_strlit("Line  (L)");
        reveal_strlit("L");
        let label = draw_table()[1].1;
        let key = hotkey(draw_table()[1].2->Tool_0);
        assert(key == "L"@);
        assert(label.subrange(6, 6int + key.len() + 2) =~= seq!['('] + key + seq![')']);
    }
    assert(shows_key(draw_table()[2].1, hotkey(draw_table()[2].2->Tool_0))) by {
        reveal_strlit("Polyline  (P)");
        reveal_strlit("P");
        let label = draw_table()[2].1;
        let key = hotkey(draw_table()[2].2->Tool_0);
        assert(key == "P"@);
        assert(label.subrange(10, 10int + key.len() + 2) =~= seq!['('] + key + seq![')']);
    }
    assert(shows_key(draw_table()[3].1, hotkey(draw_table()[3].2->Tool_0))) by {
        reveal_strlit("Circle  (C)");
        reveal_strlit("C");
        let label = draw_table()[3].1;
        let key = hotkey(draw_table()[3].2->Tool_0);
        assert(key == "C"@);
        assert(label.subrange(8, 8int + key.len() + 2) =~= seq!['('] + key + seq![')']);
    }
    assert(shows_key(draw_table()[4].1, hotkey(draw_table()[4].2->Tool_0))) by {
        reveal_strlit("Ellipse  (E) \u{2014} center, axis end, then minor axis");
        reveal_strlit("E");
        let label = draw_table()[4].1;
        let key = hotkey(draw_table()[4].2->Tool_0);
        assert(key == "E"@);
        assert(label.subrange(9, 9int + key.len() + 2) =~= seq!['('] + key + seq![')']);
    }
    assert(shows_key(draw_table()[5].1, hotkey(draw_table()[5].2->Tool_0))) by {
        reveal_strlit("Arc \u{2014} 3 points  (A)");
        reveal_strlit("A");
        let label = draw_table()[5].1;
        let key = hotkey(draw_table()[5].2->Tool_0);
        assert(key == "A"@);
        assert(label.subrange(16, 16int + key.len() + 2) =~= seq!['('] + key + seq![')']);
    }
    assert(shows_key(draw_table()[6].1, hotkey(draw_table()[6].2->Tool_0))) by {
        reveal_strlit("Rectangle  (R)");
        reveal_strlit("R");
        let label = draw_table()[6].1;
        let key = hotkey(draw_table()[6].2->Tool_0);
        assert(key == "R"@);
        assert(label.subrange(11, 11int + key.len() + 2) =~= seq!['('] + key + seq![')']);
    }
    assert(shows_key(draw_table()[7].1, hotkey(draw_table()[7].2->Tool_0))) by {
        reveal_strlit("Polygon  (G)");
        reveal_strlit("G");
        let label = draw_table()[7].1;
        let key = hotkey(draw_table()[7].2->Tool_0);
        assert(key == "G"@);
        assert(label.subrange(9, 9int + key.len() + 2) =~= seq!['('] + key + seq![')']);
    }
    assert(shows_key(draw_table()[8].1, hotkey(draw_table()[8].2->Tool_0))) by {
        reveal_strlit("Spline  (S)");
        reveal_strlit("S");
        let label = draw_table()[8].1;
        let key = hotkey(draw_table()[8].2->Tool_0);
        assert(key == "S"@);
        assert(label.subrange(8, 8int + key.len() + 2) =~= seq!['('] + key + seq![')']);
    }
    assert(shows_key(draw_table()[9].1, hotkey(draw_table()[9].2->Tool_0))) by {
        reveal_strlit("Text  (T)");
        reveal_strlit("T");
        let label = draw_table()[9].1;
        let key = hotkey(draw_table()[9].2->Tool_0);
        assert(key == "T"@);
        assert(label.subrange(6, 6int + key.len() + 2) =~= seq!['('] + key + seq![')']);
    }
    assert(shows_key(modify_table()[0].1, hotkey(modify_table()[0].2->Tool_0))) by {
        reveal_strlit("Move selection  (Shift+M)");
        reveal_strlit("Shift+M");
        let label = modify_table()[0].1;
        let key = hotkey(modify_table()[0].2->Tool_0);
        assert(key == "Shift+M"@);
        assert(label.subrange(16, 16int + key.len() + 2) =~= seq!['('] + key + seq![')']);
    }
    assert(shows_key(modify_table()[1].1, hotkey(modify_table()[1].2->Tool_0))) by {
        reveal_strlit("Copy selection  (Shift+C)");
        reveal_strlit("Shift+C");
        let label = modify_table()[1].1;
        let key = hotkey(modify_table()[1].2->Tool_0);
        assert(key == "Shift+C"@);
        assert(label.subrange(16, 16int + key.len() + 2) =~= seq!['('] + key + seq![')']);
    }
    assert(shows_key(modify_table()[2].1, hotkey(modify_table()[2].2->Tool_0))) by {
        reveal_strlit("Rotate selection  (Shift+R)");
        reveal_strlit("Shift+R");
        let label = modify_table()[2].1;
        let key = hotkey(modify_table()[2].2->Tool_0);
        assert(key == "Shift+R"@);
        assert(label.subrange(18, 18int + key.len() + 2) =~= seq!['('] + key + seq![')']);
    }
    assert(shows_key(modify_table()[3].1, hotkey(modify_table()[3].2->Tool_0))) by {
        reveal_strlit("Scale selection  (Shift+A)");
        reveal_strlit("Shift+A");
        let label = modify_table()[3].1;
        let key = hotkey(modify_table()[3].2->Tool_0);
        assert(key == "Shift+A"@);
        assert(label.subrange(17, 17int + key.len() + 2) =~= seq!['('] + key + seq![')']);
    }
    assert(shows_key(modify_table()[4].1, hotkey(modify_table()[4].2->Tool_0))) by {
        reveal_strlit("Mirror selection  (Shift+I)");
        reveal_strlit("Shift+I");
        let label = modify_table()[4].1;
        let key = hotkey(modify_table()[4].2->Tool_0);
        assert(key == "Shift+I"@);
        assert(label.subrange(18, 18int + key.len() + 2) =~= seq!['('] + key + seq![')']);
    }
    assert(shows_key(modify_table()[5].1, hotkey(modify_table()[5].2->Tool_0))) by {
        reveal_strlit("Offset  (Shift+O) \u{2014} type a distance, click curve, click side");
        reveal_strlit("Shift+O");
        let label = modify_table()[5].1;
        let key = hotkey(modify_table()[5].2->Tool_0);
        assert(key == "Shift+O"@);
        assert(label.subrange(8, 8int + key.len() + 2) =~= seq!['('] + key + seq![')']);
    }
    assert(shows_key(modify_table()[6].1, hotkey(modify_table()[6].2->Tool_0))) by {
        reveal_strlit("Trim  (Shift+T) \u{2014} click the piece to cut");
        reveal_strlit("Shift+T");
        let label = modify_table()[6].1;
        let key = hotkey(modify_table()[6].2->Tool_0);
        assert(key == "Shift+T"@);
        assert(label.subrange(6, 6int + key.len() + 2) =~= seq!['('] + key + seq![')']);
    }
    assert(shows_key(modify_table()[7].1, hotkey(modify_table()[7].2->Tool_0))) by {
        reveal_strlit("Extend  (Shift+E) \u{2014} click the end to lengthen");
        reveal_strlit("Shift+E");
        let label = modify_table()[7].1;
        let key = hotkey(modify_table()[7].2->Tool_0);
        assert(key == "Shift+E"@);
        assert(label.subrange(8, 8int + key.len() + 2) =~= seq!['('] + key + seq![')']);
    }
    assert(shows_key(modify_table()[8].1, hotkey(modify_table()[8].2->Tool_0))) by {
        reveal_strlit("Fillet  (Shift+F) \u{2014} type radius, pick 2 lines");
        reveal_strlit("Shift+F");
        let label = modify_table()[8].1;
        let key = hotkey(modify_table()[8].2->Tool_0);
        assert(key == "Shift+F"@);
        assert(label.subrange(8, 8int + key.len() + 2) =~= seq!['('] + key + seq![')']);
    }
    assert(shows_key(modify_table()[9].1, hotkey(modify_table()[9].2->Tool_0))) by {
        reveal_strlit("Chamfer  (Shift+H) \u{2014} type distance, pick 2 lines");
        reveal_strlit("Shift+H");
        let label = modify_table()[9].1;
        let key = hotkey(modify_table()[9].2->Tool_0);
        assert(key == "Shift+H"@);
        assert(label.subrange(9, 9int + key.len() + 2) =~= seq!['('] + key + seq![')']);
    }
    assert(shows_key(modify_table()[10].1, hotkey(modify_table()[10].2->Tool_0))) by {
        reveal_strlit("Stretch  (Shift+S) \u{2014} window, then base\u{2192}destination");
        reveal_strlit("Shift+S");
        let label = modify_table()[10].1;
        let key = hotkey(modify_table()[10].2->Tool_0);
        assert(key == "Shift+S"@);
        assert(label.subrange(9, 9int + key.len() + 2) =~= seq!['('] + key + seq![')']);
    }
    assert forall|i: int| 0 <= i < draw_table().len() && (#[trigger] draw_table()[i]).2 is Tool implies shows_key(
        draw_table()[i].1,
        hotkey(draw_table()[i].2->Tool_0),
    ) by {
        if i == 0 {} else if i == 1 {} else if i == 2 {} else if i == 3 {} else if i == 4 {} else if i == 5 {} else if i == 6 {} else if i == 7 {} else if i == 8 {} else if i == 9 {}
    }
    assert forall|i: int| 0 <= i < modify_table().len() && (#[trigger] modify_table()[i]).2 is Tool implies shows_key(
        modify_table()[i].1,
        hotkey(modify_table()[i].2->Tool_0),
    ) by {
        if i == 0 {} else if i == 1 {} else if i == 2 {} else if i == 3 {} else if i == 4 {} else if i == 5 {} else if i == 6 {} else if i == 7 {} else if i == 8 {} else if i == 9 {} else if i == 10 {} else if i == 11 {} else if i == 12 {} else if i == 13 {}
    }
}

} // verus!
