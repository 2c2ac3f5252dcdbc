//! The drawing and editing tools, their hotkeys and their prompts.
use vstd::prelude::*;
use crate::text::{decimal, push_decimal};

verus! {

/// A tool that the user can activate. `Polygon` carries the number of
/// sides typed with it, if any.
#[derive(Clone, Copy, Debug, PartialEq, Eq, Structural)]
pub enum ToolKind {
    Select,
    Line,
    Polyline,
    Circle,
    Ellipse,
    Arc3,
    Rectangle,
    Polygon { sides: Option<usize> },
    Spline,
    Text,
    Move,
    Copy,
    Rotate,
    Scale,
    Mirror,
    Offset,
    Trim,
    Extend,
    Fillet,
    Chamfer,
    Stretch,
    Hatch,
    ArcStartCenterEnd,
    ArcCenterStartEnd,
    CircleTwoPoint,
    CircleThreePoint,
    CircleTtr,
    CircleTtt,
    TangentLine,
    Dimension,
}

/// The keyboard shortcut shown beside a tool in the menus (empty when the
/// tool has none).
pub open spec fn hotkey(t: ToolKind) -> Seq<char> {
    match t {
        ToolKind::Select => "Esc"@,
        ToolKind::Line => "L"@,
        ToolKind::Polyline => "P"@,
        ToolKind::Circle => "C"@,
        ToolKind::Ellipse => "E"@,
        ToolKind::Arc3 => "A"@,
        ToolKind::Rectangle => "R"@,
        ToolKind::Polygon { .. } => "G"@,
        ToolKind::Spline => "S"@,
        ToolKind::Text => "T"@,
        ToolKind::Move => "Shift+M"@,
        ToolKind::Copy => "Shift+C"@,
        ToolKind::Rotate => "Shift+R"@,
        ToolKind::Scale => "Shift+A"@,
        ToolKind::Mirror => "Shift+I"@,
        ToolKind::Offset => "Shift+O"@,
        ToolKind::Trim => "Shift+T"@,
        ToolKind::Extend => "Shift+E"@,
        ToolKind::Fillet => "Shift+F"@,
        ToolKind::Chamfer => "Shift+H"@,
        ToolKind::Stretch => "Shift+S"@,
        ToolKind::Hatch => "H"@,
        _ => ""@,
    }
}

/// The tool whose hotkey is `k`, with a polygon standing for every side
/// count; `None` when no tool has it.
pub open spec fn key_owner(k: Seq<char>) -> Option<ToolKind> {
    if k == "Esc"@ {
        Some(ToolKind::Select)
    } else if k == "L"@ {
        Some(ToolKind::Line)
    } else if k == "P"@ {
        Some(ToolKind::Polyline)
    } else if k == "C"@ {
        Some(ToolKind::Circle)
    } else if k == "E"@ {
        Some(ToolKind::Ellipse)
    } else if k == "A"@ {
        Some(ToolKind::Arc3)
    } else if k == "R"@ {
        Some(ToolKind::Rectangle)
    } else if k == "G"@ {
        Some(ToolKind::Polygon { sides: None })
    } else if k == "S"@ {
        Some(ToolKind::Spline)
    } else if k == "T"@ {
        Some(ToolKind::Text)
    } else if k == "Shift+M"@ {
        Some(ToolKind::Move)
    } else if k == "Shift+C"@ {
        Some(ToolKind::Copy)
    } else if k == "Shift+R"@ {
        Some(ToolKind::Rotate)
    } else if k == "Shift+A"@ {
        Some(ToolKind::Scale)
    } else if k == "Shift+I"@ {
        Some(ToolKind::Mirror)
    } else if k == "Shift+O"@ {
        Some(ToolKind::Offset)
    } else if k == "Shift+T"@ {
        Some(ToolKind::Trim)
    } else if k == "Shift+E"@ {
        Some(ToolKind::Extend)
    } else if k == "Shift+F"@ {
        Some(ToolKind::Fillet)
    } else if k == "Shift+H"@ {
        Some(ToolKind::Chamfer)
    } else if k == "Shift+S"@ {
        Some(ToolKind::Stretch)
    } else if k == "H"@ {
        Some(ToolKind::Hatch)
    } else {
        None
    }
}

/// A tool with any polygon side count replaced by none.
pub open spec fn plain_tool(t: ToolKind) -> ToolKind {
    match t {
        ToolKind::Polygon { .. } => ToolKind::Polygon { sides: None },
        _ => t,
    }
}

proof fn lemma_key_owner(t: ToolKind)
    ensures
        hotkey(t).len() > 0 ==> key_owner(hotkey(t)) == Some(plain_tool(t)),
{
    reveal_strlit("Esc");
    reveal_strlit("L");
    reveal_strlit("P");
    reveal_strlit("C");
    reveal_strlit("E");
    reveal_strlit("A");
    reveal_strlit("R");
    reveal_strlit("G");
    reveal_strlit("S");
    reveal_strlit("T");
    reveal_strlit("Shift+M");
    reveal_strlit("Shift+C");
    reveal_strlit("Shift+R");
    reveal_strlit("Shift+A");
    reveal_strlit("Shift+I");
    reveal_strlit("Shift+O");
    reveal_strlit("Shift+T");
    reveal_strlit("Shift+E");
    reveal_strlit("Shift+F");
    reveal_strlit("Shift+H");
    reveal_strlit("Shift+S");
    reveal_strlit("H");
    reveal_strlit("");
    match t {
        ToolKind::Select => {
            reveal_strlit("Esc");
            assert(key_owner("Esc"@) == Some(plain_tool(t)));
        },
        ToolKind::Line => {
            reveal_strlit("L");
            assert("L"@.len() != "Esc"@.len());
            assert(key_owner("L"@) == Some(plain_tool(t)));
        },
        ToolKind::Polyline => {
            reveal_strlit("P");
            assert("P"@.len() != "Esc"@.len());
            assert("P"@[0] != "L"@[0]);
            assert(key_owner("P"@) == Some(plain_tool(t)));
        },
        ToolKind::Circle => {
            reveal_strlit("C");
            assert("C"@.len() != "Esc"@.len());
            assert("C"@[0] != "L"@[0]);
            assert("C"@[0] != "P"@[0]);
            assert(key_owner("C"@) == Some(plain_tool(t)));
        },
        ToolKind::Ellipse => {
            reveal_strlit("E");
            assert("E"@.len() != "Esc"@.len());
            assert("E"@[0] != "L"@[0]);
            assert("E"@[0] != "P"@[0]);
            assert("E"@[0] != "C"@[0]);
            assert(key_owner("E"@) == Some(plain_tool(t)));
        },
        ToolKind::Arc3 => {
            reveal_strlit("A");
            assert("A"@.len() != "Esc"@.len());
            assert("A"@[0] != "L"@[0]);
            assert("A"@[0] != "P"@[0]);
            assert("A"@[0] != "C"@[0]);
            assert("A"@[0] != "E"@[0]);
            assert(key_owner("A"@) == Some(plain_tool(t)));
        },
        ToolKind::Rectangle => {
            reveal_strlit("R");
            assert("R"@.len() != "Esc"@.len());
            assert("R"@[0] != "L"@[0]);
            assert("R"@[0] != "P"@[0]);
            assert("R"@[0] != "C"@[0]);
            assert("R"@[0] != "E"@[0]);
            assert("R"@[0] != "A"@[0]);
            assert(key_owner("R"@) == Some(plain_tool(t)));
        },
        ToolKind::Polygon { .. } => {
            reveal_strlit("G");
            assert("G"@.len() != "Esc"@.len());
            assert("G"@[0] != "L"@[0]);
            assert("G"@[0] != "P"@[0]);
            assert("G"@[0] != "C"@[0]);
            assert("G"@[0] != "E"@[0]);
            assert("G"@[0] != "A"@[0]);
            assert("G"@[0] != "R"@[0]);
            assert(key_owner("G"@) == Some(plain_tool(t)));
        },
        ToolKind::Spline => {
            reveal_strlit("S");
            assert("S"@.len() != "Esc"@.len());
            assert("S"@[0] != "L"@[0]);
            assert("S"@[0] != "P"@[0]);
            assert("S"@[0] != "C"@[0]);
            assert("S"@[0] != "E"@[0]);
            assert("S"@[0] != "A"@[0]);
            assert("S"@[0] != "R"@[0]);
            assert("S"@[0] != "G"@[0]);
            assert(key_owner("S"@) == Some(plain_tool(t)));
        },
        ToolKind::Text => {
            reveal_strlit("T");
            assert("T"@.len() != "Esc"@.len());
            assert("T"@[0] != "L"@[0]);
            assert("T"@[0] != "P"@[0]);
            assert("T"@[0] != "C"@[0]);
            assert("T"@[0] != "E"@[0]);
            assert("T"@[0] != "A"@[0]);
            assert("T"@[0] != "R"@[0]);
            assert("T"@[0] != "G"@[0]);
            assert("T"@[0] != "S"@[0]);
            assert(key_owner("T"@) == Some(plain_tool(t)));
        },
        ToolKind::Move => {
            reveal_strlit("Shift+M");
            assert("Shift+M"@.len() != "Esc"@.len());
            assert("Shift+M"@.len() != "L"@.len());
            assert("Shift+M"@.len() != "P"@.len());
            assert("Shift+M"@.len() != "C"@.len());
            assert("Shift+M"@.len() != "E"@.len());
            assert("Shift+M"@.len() != "A"@.len());
            assert("Shift+M"@.len() != "R"@.len());
            assert("Shift+M"@.len() != "G"@.len());
            assert("Shift+M"@.len() != "S"@.len());
            assert("Shift+M"@.len() != "T"@.len());
            assert(key_owner("Shift+M"@) == Some(plain_tool(t)));
        },
        ToolKind::Copy => {
            reveal_strlit("Shift+C");
            assert("Shift+C"@.len() != "Esc"@.len());
            assert("Shift+C"@.len() != "L"@.len());
            assert("Shift+C"@.len() != "P"@.len());
            assert("Shift+C"@.len() != "C"@.len());
            assert("Shift+C"@.len() != "E"@.len());
            assert("Shift+C"@.len() != "A"@.len());
            assert("Shift+C"@.len() != "R"@.len());
            assert("Shift+C"@.len() != "G"@.len());
            assert("Shift+C"@.len() != "S"@.len());
            assert("Shift+C"@.len() != "T"@.len());
            assert("Shift+C"@[6] != "Shift+M"@[6]);
            assert(key_owner("Shift+C"@) == Some(plain_tool(t)));
        },
        ToolKind::Rotate => {
            reveal_strlit("Shift+R");
            assert("Shift+R"@.len() != "Esc"@.len());
            assert("Shift+R"@.len() != "L"@.len());
            assert("Shift+R"@.len() != "P"@.len());
            assert("Shift+R"@.len() != "C"@.len());
            assert("Shift+R"@.len() != "E"@.len());
            assert("Shift+R"@.len() != "A"@.len());
            assert("Shift+R"@.len() != "R"@.len());
            assert("Shift+R"@.len() != "G"@.len());
            assert("Shift+R"@.len() != "S"@.len());
            assert("Shift+R"@.len() != "T"@.len());
            assert("Shift+R"@[6] != "Shift+M"@[6]);
            assert("Shift+R"@[6] != "Shift+C"@[6]);
            assert(key_owner("Shift+R"@) == Some(plain_tool(t)));
        },
        ToolKind::Scale => {
            reveal_strlit("Shift+A");
            assert("Shift+A"@.len() != "Esc"@.len());
            assert("Shift+A"@.len() != "L"@.len());
            assert("Shift+A"@.len() != "P"@.len());
            assert("Shift+A"@.len() != "C"@.len());
            assert("Shift+A"@.len() != "E"@.len());
            assert("Shift+A"@.len() != "A"@.len());
            assert("Shift+A"@.len() != "R"@.len());
            assert("Shift+A"@.len() != "G"@.len());
            assert("Shift+A"@.len() != "S"@.len());
            assert("Shift+A"@.len() != "T"@.len());
            assert("Shift+A"@[6] != "Shift+M"@[6]);
            assert("Shift+A"@[6] != "Shift+C"@[6]);
            assert("Shift+A"@[6] != "Shift+R"@[6]);
            assert(key_owner("Shift+A"@) == Some(plain_tool(t)));
        },
        ToolKind::Mirror => {
            reveal_strlit("Shift+I");
            assert("Shift+I"@.len() != "Esc"@.len());
            assert("Shift+I"@.len() != "L"@.len());
            assert("Shift+I"@.len() != "P"@.len());
            assert("Shift+I"@.len() != "C"@.len());
            assert("Shift+I"@.len() != "E"@.len());
            assert("Shift+I"@.len() != "A"@.len());
            assert("Shift+I"@.len() != "R"@.len());
            assert("Shift+I"@.len() != "G"@.len());
            assert("Shift+I"@.len() != "S"@.len());
            assert("Shift+I"@.len() != "T"@.len());
            assert("Shift+I"@[6] != "Shift+M"@[6]);
            assert("Shift+I"@[6] != "Shift+C"@[6]);
            assert("Shift+I"@[6] != "Shift+R"@[6]);
            assert("Shift+I"@[6] != "Shift+A"@[6]);
            assert(key_owner("Shift+I"@) == Some(plain_tool(t)));
        },
        ToolKind::Offset => {
            reveal_strlit("Shift+O");
            assert("Shift+O"@.len() != "Esc"@.len());
            assert("Shift+O"@.len() != "L"@.len());
            assert("Shift+O"@.len() != "P"@.len());
            assert("Shift+O"@.len() != "C"@.len());
            assert("Shift+O"@.len() != "E"@.len());
            assert("Shift+O"@.len() != "A"@.len());
            assert("Shift+O"@.len() != "R"@.len());
            assert("Shift+O"@.len() != "G"@.len());
            assert("Shift+O"@.len() != "S"@.len());
            assert("Shift+O"@.len() != "T"@.len());
            assert("Shift+O"@[6] != "Shift+M"@[6]);
            assert("Shift+O"@[6] != "Shift+C"@[6]);
            assert("Shift+O"@[6] != "Shift+R"@[6]);
            assert("Shift+O"@[6] != "Shift+A"@[6]);
            assert("Shift+O"@[6] != "Shift+I"@[6]);
            assert(key_owner("Shift+O"@) == Some(plain_tool(t)));
        },
        ToolKind::Trim => {
            reveal_strlit("Shift+T");
            assert("Shift+T"@.len() != "Esc"@.len());
            assert("Shift+T"@.len() != "L"@.len());
            assert("Shift+T"@.len() != "P"@.len());
            assert("Shift+T"@.len() != "C"@.len());
            assert("Shift+T"@.len() != "E"@.len());
            assert("Shift+T"@.len() != "A"@.len());
            assert("Shift+T"@.len() != "R"@.len());
            assert("Shift+T"@.len() != "G"@.len());
            assert("Shift+T"@.len() != "S"@.len());
            assert("Shift+T"@.len() != "T"@.len());
            assert("Shift+T"@[6] != "Shift+M"@[6]);
            assert("Shift+T"@[6] != "Shift+C"@[6]);
            assert("Shift+T"@[6] != "Shift+R"@[6]);
            assert("Shift+T"@[6] != "Shift+A"@[6]);
            assert("Shift+T"@[6] != "Shift+I"@[6]);
            assert("Shift+T"@[6] != "Shift+O"@[6]);
            assert(key_owner("Shift+T"@) == Some(plain_tool(t)));
        },
        ToolKind::Extend => {
            reveal_strlit("Shift+E");
            assert("Shift+E"@.len() != "Esc"@.len());
            assert("Shift+E"@.len() != "L"@.len());
            assert("Shift+E"@.len() != "P"@.len());
            assert("Shift+E"@.len() != "C"@.len());
            assert("Shift+E"@.len() != "E"@.len());
            assert("Shift+E"@.len() != "A"@.len());
            assert("Shift+E"@.len() != "R"@.len());
            assert("Shift+E"@.len() != "G"@.len());
            assert("Shift+E"@.len() != "S"@.len());
            assert("Shift+E"@.len() != "T"@.len());
            assert("Shift+E"@[6] != "Shift+M"@[6]);
            assert("Shift+E"@[6] != "Shift+C"@[6]);
            assert("Shift+E"@[6] != "Shift+R"@[6]);
            assert("Shift+E"@[6] != "Shift+A"@[6]);
            assert("Shift+E"@[6] != "Shift+I"@[6]);
            assert("Shift+E"@[6] != "Shift+O"@[6]);
            assert("Shift+E"@[6] != "Shift+T"@[6]);
            assert(key_owner("Shift+E"@) == Some(plain_tool(t)));
        },
        ToolKind::Fillet => {
            reveal_strlit("Shift+F");
            assert("Shift+F"@.len() != "Esc"@.len());
            assert("Shift+F"@.len() != "L"@.len());
            assert("Shift+F"@.len() != "P"@.len());
            assert("Shift+F"@.len() != "C"@.len());
            assert("Shift+F"@.len() != "E"@.len());
            assert("Shift+F"@.len() != "A"@.len());
            assert("Shift+F"@.len() != "R"@.len());
            assert("Shift+F"@.len() != "G"@.len());
            assert("Shift+F"@.len() != "S"@.len());
            assert("Shift+F"@.len() != "T"@.len());
            assert("Shift+F"@[6] != "Shift+M"@[6]);
            assert("Shift+F"@[6] != "Shift+C"@[6]);
            assert("Shift+F"@[6] != "Shift+R"@[6]);
            assert("Shift+F"@[6] != "Shift+A"@[6]);
            assert("Shift+F"@[6] != "Shift+I"@[6]);
            assert("Shift+F"@[6] != "Shift+O"@[6]);
            assert("Shift+F"@[6] != "Shift+T"@[6]);
            assert("Shift+F"@[6] != "Shift+E"@[6]);
            assert(key_owner("Shift+F"@) == Some(plain_tool(t)));
        },
        ToolKind::Chamfer => {
            reveal_strlit("Shift+H");
            assert("Shift+H"@.len() != "Esc"@.len());
            assert("Shift+H"@.len() != "L"@.len());
            assert("Shift+H"@.len() != "P"@.len());
            assert("Shift+H"@.len() != "C"@.len());
            assert("Shift+H"@.len() != "E"@.len());
            assert("Shift+H"@.len() != "A"@.len());
            assert("Shift+H"@.len() != "R"@.len());
            assert("Shift+H"@.len() != "G"@.len());
            assert("Shift+H"@.len() != "S"@.len());
            assert("Shift+H"@.len() != "T"@.len());
            assert("Shift+H"@[6] != "Shift+M"@[6]);
            assert("Shift+H"@[6] != "Shift+C"@[6]);
            assert("Shift+H"@[6] != "Shift+R"@[6]);
            assert("Shift+H"@[6] != "Shift+A"@[6]);
            assert("Shift+H"@[6] != "Shift+I"@[6]);
            assert("Shift+H"@[6] != "Shift+O"@[6]);
            assert("Shift+H"@[6] != "Shift+T"@[6]);
            assert("Shift+H"@[6] != "Shift+E"@[6]);
            assert("Shift+H"@[6] != "Shift+F"@[6]);
            assert(key_owner("Shift+H"@) == Some(plain_tool(t)));
        },
        ToolKind::Stretch => {
            reveal_strlit("Shift+S");
            assert("Shift+S"@.len() != "Esc"@.len());
            assert("Shift+S"@.len() != "L"@.len());
            assert("Shift+S"@.len() != "P"@.len());
            assert("Shift+S"@.len() != "C"@.len());
            assert("Shift+S"@.len() != "E"@.len());
            assert("Shift+S"@.len() != "A"@.len());
            assert("Shift+S"@.len() != "R"@.len());
            assert("Shift+S"@.len() != "G"@.len());
            assert("Shift+S"@.len() != "S"@.len());
            assert("Shift+S"@.len() != "T"@.len());
            assert("Shift+S"@[6] != "Shift+M"@[6]);
            assert("Shift+S"@[6] != "Shift+C"@[6]);
            assert("Shift+S"@[6] != "Shift+R"@[6]);
            assert("Shift+S"@[6] != "Shift+A"@[6]);
            assert("Shift+S"@[6] != "Shift+I"@[6]);
            assert("Shift+S"@[6] != "Shift+O"@[6]);
            assert("Shift+S"@[6] != "Shift+T"@[6]);
            assert("Shift+S"@[6] != "Shift+E"@[6]);
            assert("Shift+S"@[6] != "Shift+F"@[6]);
            assert("Shift+S"@[6] != "Shift+H"@[6]);
            assert(key_owner("Shift+S"@) == Some(plain_tool(t)));
        },
        ToolKind::Hatch => {
            reveal_strlit("H");
            assert("H"@.len() != "Esc"@.len());
            assert("H"@[0] != "L"@[0]);
            assert("H"@[0] != "P"@[0]);
            assert("H"@[0] != "C"@[0]);
            assert("H"@[0] != "E"@[0]);
            assert("H"@[0] != "A"@[0]);
            assert("H"@[0] != "R"@[0]);
            assert("H"@[0] != "G"@[0]);
            assert("H"@[0] != "S"@[0]);
            assert("H"@[0] != "T"@[0]);
            assert("H"@.len() != "Shift+M"@.len());
            assert("H"@.len() != "Shift+C"@.len());
            assert("H"@.len() != "Shift+R"@.len());
            assert("H"@.len() != "Shift+A"@.len());
            assert("H"@.len() != "Shift+I"@.len());
            assert("H"@.len() != "Shift+O"@.len());
            assert("H"@.len() != "Shift+T"@.len());
            assert("H"@.len() != "Shift+E"@.len());
            assert("H"@.len() != "Shift+F"@.len());
            assert("H"@.len() != "Shift+H"@.len());
            assert("H"@.len() != "Shift+S"@.len());
            assert(key_owner("H"@) == Some(plain_tool(t)));
        },
        _ => {},
    }
}

/// No two tools share a hotkey (polygons of any side count are one tool),
/// and the tools without a hotkey show none.
pub proof fn lemma_hotkeys_distinct(a: ToolKind, b: ToolKind)
    ensures
        hotkey(a).len() > 0 && hotkey(a) == hotkey(b) ==> plain_tool(a) == plain_tool(b),
{
    lemma_key_owner(a);
    lemma_key_owner(b);
}

/// The keyboard shortcut of `tool`.
pub fn tool_hotkey(tool: &ToolKind) -> (r: &'static str)
    ensures
        r@ == hotkey(*tool),
{
    match tool {
        ToolKind::Select => "Esc",
        ToolKind::Line => "L",
        ToolKind::Polyline => "P",
        ToolKind::Circle => "C",
        ToolKind::Ellipse => "E",
        ToolKind::Arc3 => "A",
        ToolKind::Rectangle => "R",
        ToolKind::Polygon { .. } => "G",
        ToolKind::Spline => "S",
        ToolKind::Text => "T",
        ToolKind::Move => "Shift+M",
        ToolKind::Copy => "Shift+C",
        ToolKind::Rotate => "Shift+R",
        ToolKind::Scale => "Shift+A",
        ToolKind::Mirror => "Shift+I",
        ToolKind::Offset => "Shift+O",
        ToolKind::Trim => "Shift+T",
        ToolKind::Extend => "Shift+E",
        ToolKind::Fillet => "Shift+F",
        ToolKind::Chamfer => "Shift+H",
        ToolKind::Stretch => "Shift+S",
        ToolKind::Hatch => "H",
        ToolKind::ArcStartCenterEnd
        | ToolKind::ArcCenterStartEnd
        | ToolKind::CircleTwoPoint
        | ToolKind::CircleThreePoint
        | ToolKind::CircleTtr
        | ToolKind::CircleTtt
        | ToolKind::TangentLine
        | ToolKind::Dimension => "",
    }
}

/// The prompt for `t` once `picks` points of it have been placed. Tools
/// without a prompt of their own show the select tool's prompt.
pub open spec fn prompt(t: ToolKind, picks: nat) -> Seq<char> {
    match t {
        ToolKind::Line => if picks == 0 {
            "Specify start point"@
        } else {
            "Specify next point or length"@
        },
        ToolKind::Circle => if picks == 0 {
            "Specify center point"@
        } else {
            "Specify radius"@
        },
        ToolKind::Rectangle => if picks == 0 {
            "Specify first corner"@
        } else {
            "Specify opposite corner"@
        },
        ToolKind::Arc3 => if picks == 0 {
            "Specify start point"@
        } else if picks == 1 {
            "Specify second point"@
        } else {
            "Specify end point"@
        },
        ToolKind::Ellipse => if picks == 0 {
            "Specify center of ellipse"@
        } else if picks == 1 {
            "Specify end of first axis"@
        } else {
            "Specify distance to other axis"@
        },
        ToolKind::Move | ToolKind::Copy => if picks == 0 {
            "Specify base point"@
        } else {
            "Specify destination"@
        },
        ToolKind::Rotate => if picks == 0 {
            "Specify base point"@
        } else {
            "Specify rotation angle"@
        },
        ToolKind::Scale => if picks == 0 {
            "Specify base point"@
        } else {
            "Specify scale factor"@
        },
        ToolKind::Mirror => if picks == 0 {
            "Specify first point of mirror axis"@
        } else {
            "Specify second point of mirror axis"@
        },
        ToolKind::Polygon { sides } => if picks == 0 {
            match sides {
                Some(n) => "Sides: "@ + decimal(n as nat)
                    + " \u{2014} click the center (or type a new count)"@,
                None => "Type the number of sides (3+), then click the center"@,
            }
        } else {
            "Click to set the radius"@
        },
        ToolKind::Spline => if picks == 0 {
            "Specify first control point"@
        } else {
            "Specify next control vertex ("@ + decimal(picks)
                + " placed) \u{2014} Enter/right-click finishes, C closes"@
        },
        ToolKind::Polyline => if picks == 0 {
            "Specify start point"@
        } else {
            "Specify next point \u{2014} Enter/right-click finishes"@
        },
        ToolKind::Text => if picks == 0 {
            "Specify text anchor point"@
        } else {
            "Type the text, Enter to place"@
        },
        ToolKind::Offset => if picks == 0 {
            "Click the curve to offset (type a distance first)"@
        } else {
            "Click the side to offset towards"@
        },
        ToolKind::Trim => "Click the segment piece to cut away"@,
        ToolKind::Extend => "Click the end to lengthen"@,
        ToolKind::Hatch => "Click inside an area to hatch it"@,
        ToolKind::Fillet | ToolKind::Chamfer => if picks == 0 {
            "Pick the first line"@
        } else {
            "Pick the second line"@
        },
        ToolKind::Stretch => if picks == 0 {
            "Specify first corner of crossing window"@
        } else if picks == 1 {
            "Specify opposite corner"@
        } else if picks == 2 {
            "Specify base point"@
        } else {
            "Specify destination"@
        },
        _ => "Click an entity, or drag a window"@,
    }
}

fn text_of(t: &str) -> (r: String)
    ensures
        r@ == t@,
{
    String::from_str(t)
}

/// The prompt shown on the canvas while `tool` is active and `picks` of its
/// points have been placed (the points a tool takes are placed in order).
pub fn tool_prompt(tool: &ToolKind, picks: usize) -> (r: String)
    ensures
        r@ == prompt(*tool, picks as nat),
{
    match tool {
        ToolKind::Line => if picks == 0 {
            text_of("Specify start point")
        } else {
            text_of("Specify next point or length")
        },
        ToolKind::Circle => if picks == 0 {
            text_of("Specify center point")
        } else {
            text_of("Specify radius")
        },
        ToolKind::Rectangle => if picks == 0 {
            text_of("Specify first corner")
        } else {
            text_of("Specify opposite corner")
        },
        ToolKind::Arc3 => if picks == 0 {
            text_of("Specify start point")
        } else if picks == 1 {
            text_of("Specify second point")
        } else {
            text_of("Specify end point")
        },
        ToolKind::Ellipse => if picks == 0 {
            text_of("Specify center of ellipse")
        } else if picks == 1 {
            text_of("Specify end of first axis")
        } else {
            text_of("Specify distance to other axis")
        },
        ToolKind::Move | ToolKind::Copy => if picks == 0 {
            text_of("Specify base point")
        } else {
            text_of("Specify destination")
        },
        ToolKind::Rotate => if picks == 0 {
            text_of("Specify base point")
        } else {
            text_of("Specify rotation angle")
        },
        ToolKind::Scale => if picks == 0 {
            text_of("Specify base point")
        } else {
            text_of("Specify scale factor")
        },
        ToolKind::Mirror => if picks == 0 {
            text_of("Specify first point of mirror axis")
        } else {
            text_of("Specify second point of mirror axis")
        },
        ToolKind::Polygon { sides } => if picks == 0 {
            match sides {
                Some(n) => {
                    let mut s = text_of("Sides: ");
                    push_decimal(&mut s, *n);
                    s.append(" \u{2014} click the center (or type a new count)");
                    s
                },
                None => text_of("Type the number of sides (3+), then click the center"),
            }
        } else {
            text_of("Click to set the radius")
        },
        ToolKind::Spline => if picks == 0 {
            text_of("Specify first control point")
        } else {
            let mut s = text_of("Specify next control vertex (");
            push_decimal(&mut s, picks);
            s.append(" placed) \u{2014} Enter/right-click finishes, C closes");
            s
        },
        ToolKind::Polyline => if picks == 0 {
            text_of("Specify start point")
        } else {
            text_of("Specify next point \u{2014} Enter/right-click finishes")
        },
        ToolKind::Text => if picks == 0 {
            text_of("Specify text anchor point")
        } else {
            text_of("Type the text, Enter to place")
        },
        ToolKind::Offset => if picks == 0 {
            text_of("Click the curve to offset (type a distance first)")
        } else {
            text_of("Click the side to offset towards")
        },
        ToolKind::Trim => text_of("Click the segment piece to cut away"),
        ToolKind::Extend => text_of("Click the end to lengthen"),
        ToolKind::Hatch => text_of("Click inside an area to hatch it"),
        ToolKind::Fillet | ToolKind::Chamfer => if picks == 0 {
            text_of("Pick the first line")
        } else {
            text_of("Pick the second line")
        },
        ToolKind::Stretch => if picks == 0 {
            text_of("Specify first corner of crossing window")
        } else if picks == 1 {
            text_of("Specify opposite corner")
        } else if picks == 2 {
            text_of("Specify base point")
        } else {
            text_of("Specify destination")
        },
        _ => text_of("Click an entity, or drag a window"),
    }
}


/// The two mutually exclusive pointer aids: ortho (lock to the axes) and
/// polar (guides at angle steps).
#[derive(Clone, Copy, Debug, PartialEq, Eq, Structural)]
pub struct PointerAids {
    pub ortho: bool,
    pub polar: bool,
}

impl PointerAids {
    /// The aids of a new session: polar on, ortho off.
    pub fn new() -> (a: PointerAids)
        ensures
            a == (PointerAids { ortho: false, polar: true }),
    {
        PointerAids { ortho: false, polar: true }
    }

    /// Turns polar on or off; turning it on turns ortho off.
    pub fn set_polar(&mut self, on: bool)
        ensures
            final(self).polar == on,
            final(self).ortho == (old(self).ortho && !on),
            !(final(self).ortho && final(self).polar),
    {
        self.polar = on;
        if on {
            self.ortho = false;
        }
    }

    /// Turns ortho on or off; turning it on turns polar off.
    pub fn set_ortho(&mut self, on: bool)
        ensures
            final(self).ortho == on,
            final(self).polar == (old(self).polar && !on),
            !(final(self).ortho && final(self).polar),
    {
        self.ortho = on;
        if on {
            self.polar = false;
        }
    }
}

} // verus!
