//! What a line typed into the command line does, given the active tool.
use vstd::prelude::*;
use crate::command::{
    command_of, coord_split, parse_command, parse_usize, split_coordinate, upper, Command,
    CommandModel, CoordParts,
};
use crate::tools::ToolKind;
use crate::words::{all_ws, chars_of, lemma_surrounding_blanks, trim, trimmed};

verus! {

/// How a typed line reads as a floating-point number; the reading itself
/// is done by the caller.
#[derive(Clone, Copy, Debug, PartialEq, Eq, Structural)]
pub enum NumberReading {
    NotANumber,
    Number { positive: bool },
}

/// Whether a backslash followed by `n` starts at position `i` of `s`.
pub open spec fn escape_at(s: Seq<char>, i: int) -> bool {
    0 <= i && i + 1 < s.len() && s[i] == '\\' && s[i + 1] == 'n'
}

/// `s` from position `i` on, with each `\n` escape (read left to right)
/// replaced by a line break.
pub open spec fn unescape_from(s: Seq<char>, i: int) -> Seq<char>
    decreases s.len() - i,
{
    if i < 0 || i >= s.len() {
        Seq::empty()
    } else if escape_at(s, i) {
        seq!['\n'] + unescape_from(s, i + 2)
    } else {
        seq![s[i]] + unescape_from(s, i + 1)
    }
}

/// `s` with each `\n` escape replaced by a line break.
pub open spec fn unescape(s: Seq<char>) -> Seq<char> {
    unescape_from(s, 0)
}

/// `s` with each `\n` escape replaced by a line break, as
/// `str::replace("\\n", "\n")` does.
pub fn unescape_newlines(s: &str) -> (r: String)
    ensures
        r@ == unescape(s@),
{
    let v = chars_of(s);
    let n = v.len();
    let mut out = String::new();
    let mut i: usize = 0;
    while i < n
        invariant
            n == v@.len(),
            v@ == s@,
            i <= n,
            out@ + unescape_from(s@, i as int) == unescape(s@),
        decreases n - i,
    {
        if i + 1 < n && v[i] == '\\' && v[i + 1] == 'n' {
            let ghost before = out@;
            out.append("\n");
            proof {
                reveal_strlit("\n");
                assert(out@ + unescape_from(s@, i + 2) =~= before + unescape_from(s@, i as int));
            }
            i = i + 2;
        } else {
            let ghost before = out@;
            out.append(s.substring_char(i, i + 1));
            proof {
                assert(out@ + unescape_from(s@, i + 1) =~= before + unescape_from(s@, i as int));
            }
            i = i + 1;
        }
    }
    out
}

/// What a typed line does.
pub enum LineAction {
    /// Place a text entity with this content; the text tool ends.
    PlaceText(String),
    /// The text tool ends without placing anything.
    EndText,
    /// Commit the path being drawn; the tool ends.
    FinishPath,
    /// Close and commit the path being drawn; the tool ends.
    ClosePath,
    /// The polygon tool takes this many sides.
    SetPolygonSides(usize),
    /// The line is the active tool's distance or radius.
    SetToolValue,
    /// The line is a distance to step from the tool's reference point
    /// towards the cursor.
    StepFromReference,
    /// The line is a typed point.
    Point(CoordParts),
    /// The line is a command; `remember` says whether it becomes the
    /// command that a repeat runs again.
    Run { command: Command, remember: bool },
}

/// What a typed line does, with its texts as character sequences.
pub enum LineActionModel {
    PlaceText(Seq<char>),
    EndText,
    FinishPath,
    ClosePath,
    SetPolygonSides(usize),
    SetToolValue,
    StepFromReference,
    Point((bool, bool, Seq<char>, Seq<char>)),
    Run { command: CommandModel, remember: bool },
}

impl View for LineAction {
    type V = LineActionModel;

    open spec fn view(&self) -> LineActionModel {
        match self {
            LineAction::PlaceText(t) => LineActionModel::PlaceText(t@),
            LineAction::EndText => LineActionModel::EndText,
            LineAction::FinishPath => LineActionModel::FinishPath,
            LineAction::ClosePath => LineActionModel::ClosePath,
            LineAction::SetPolygonSides(n) => LineActionModel::SetPolygonSides(*n),
            LineAction::SetToolValue => LineActionModel::SetToolValue,
            LineAction::StepFromReference => LineActionModel::StepFromReference,
            LineAction::Point(p) => LineActionModel::Point(
                (p.relative, p.polar, p.first@, p.second@),
            ),
            LineAction::Run { command, remember } => LineActionModel::Run {
                command: command@,
                remember: *remember,
            },
        }
    }
}

/// What the line `s` does while `tool` is active with `picks` of its points
/// placed; `has_reference` says whether the tool has a point to measure
/// from, `number` how the trimmed line reads as a number, and
/// `coordinate_reads` whether both parts of the line, cut as a coordinate,
/// read as numbers.
pub open spec fn line_action(
    tool: ToolKind,
    picks: nat,
    has_reference: bool,
    number: NumberReading,
    coordinate_reads: bool,
    s: Seq<char>,
) -> LineActionModel {
    let t = trim(s);
    if tool is Text && picks > 0 {
        if t.len() > 0 {
            LineActionModel::PlaceText(unescape(t))
        } else {
            LineActionModel::EndText
        }
    } else if (tool is Polyline || tool is Spline) && t.len() == 0 {
        LineActionModel::FinishPath
    } else if (tool is Polyline || tool is Spline) && (upper(t) == "C"@ || upper(t) == "CLOSE"@) {
        LineActionModel::ClosePath
    } else if tool is Polygon && picks == 0 && parse_usize(t) is Some && parse_usize(t)->0 >= 3 {
        LineActionModel::SetPolygonSides(parse_usize(t)->0)
    } else if number == (NumberReading::Number { positive: true }) && (tool is Offset
        || tool is Fillet || tool is Chamfer) {
        LineActionModel::SetToolValue
    } else if number is Number && has_reference {
        LineActionModel::StepFromReference
    } else if coord_split(t) is Some && coordinate_reads {
        LineActionModel::Point(coord_split(t)->0)
    } else {
        let c = command_of(s);
        LineActionModel::Run { command: c, remember: !(c is Cancel || c is Unknown) }
    }
}

/// Whether the line `s` goes into the command history: every line but the
/// empty one that finishes a path.
pub open spec fn line_logged(tool: ToolKind, s: Seq<char>) -> bool {
    !((tool is Polyline || tool is Spline) && trim(s).len() == 0)
}

/// Decides what the typed line `text` does while `tool` is active with
/// `picks` of its points placed. The caller reads numbers: `number` is how
/// the trimmed line reads as one, and `coordinate_reads` whether both parts
/// of the line, cut as a coordinate, read as numbers. Returns the action and
/// the line to log (the trimmed line, or `None`).
pub fn command_line_action(
    tool: &ToolKind,
    picks: usize,
    has_reference: bool,
    number: NumberReading,
    coordinate_reads: bool,
    text: &str,
) -> (r: (LineAction, Option<String>))
    ensures
        r.0@ == line_action(*tool, picks as nat, has_reference, number, coordinate_reads, text@),
        match r.1 {
            Some(l) => line_logged(*tool, text@) && l@ == trim(text@),
            None => !line_logged(*tool, text@),
        },
{
    let t = trimmed(text);
    let tv = chars_of(t.as_str());
    let empty = tv.len() == 0;
    let is_path = match tool {
        ToolKind::Polyline | ToolKind::Spline => true,
        _ => false,
    };
    let log = if is_path && empty {
        None
    } else {
        Some(trimmed(text))
    };
    let is_text = match tool {
        ToolKind::Text => true,
        _ => false,
    };
    if is_text && picks > 0 {
        if !empty {
            return (LineAction::PlaceText(unescape_newlines(t.as_str())), log);
        } else {
            return (LineAction::EndText, log);
        }
    }
    if is_path && empty {
        return (LineAction::FinishPath, log);
    }
    let n = tv.len();
    if is_path && (crate::command::word_is(&tv, 0, n, "C") || crate::command::word_is(
        &tv,
        0,
        n,
        "CLOSE",
    )) {
        assert(tv@.subrange(0, n as int) =~= t@);
        return (LineAction::ClosePath, log);
    }
    assert(tv@.subrange(0, n as int) =~= t@);
    let is_polygon_start = match tool {
        ToolKind::Polygon { .. } => picks == 0,
        _ => false,
    };
    if is_polygon_start {
        match crate::command::parse_count(&tv, 0, n) {
            Some(k) => if k >= 3 {
                return (LineAction::SetPolygonSides(k), log);
            },
            None => {},
        }
    }
    let takes_value = match tool {
        ToolKind::Offset | ToolKind::Fillet | ToolKind::Chamfer => true,
        _ => false,
    };
    if number == (NumberReading::Number { positive: true }) && takes_value {
        return (LineAction::SetToolValue, log);
    }
    let is_number = match number {
        NumberReading::Number { .. } => true,
        NumberReading::NotANumber => false,
    };
    if is_number && has_reference {
        return (LineAction::StepFromReference, log);
    }
    if coordinate_reads {
        match split_coordinate(t.as_str()) {
            Some(p) => {
                return (LineAction::Point(p), log);
            },
            None => {},
        }
    }
    let command = parse_command(text);
    let remember = match command {
        Command::Cancel | Command::Unknown(_) => false,
        _ => true,
    };
    (LineAction::Run { command, remember }, log)
}


/// Blanks before and after a typed line change nothing about what it does
/// or what is logged.
pub proof fn lemma_line_ignores_surrounding_blanks(
    tool: ToolKind,
    picks: nat,
    has_reference: bool,
    number: NumberReading,
    coordinate_reads: bool,
    p: Seq<char>,
    s: Seq<char>,
    q: Seq<char>,
)
    requires
        all_ws(p),
        all_ws(q),
    ensures
        line_action(tool, picks, has_reference, number, coordinate_reads, p + s + q)
            == line_action(tool, picks, has_reference, number, coordinate_reads, s),
        line_logged(tool, p + s + q) == line_logged(tool, s),
{
    lemma_surrounding_blanks(p, s, q);
    crate::command::lemma_surrounding_blanks_ignored(p, s, q);
}


/// A positive number typed while the offset, fillet or chamfer tool is
/// active is that tool's distance or radius, whatever else holds.
pub proof fn lemma_positive_number_is_tool_value(
    tool: ToolKind,
    picks: nat,
    has_reference: bool,
    coordinate_reads: bool,
    s: Seq<char>,
)
    requires
        tool is Offset || tool is Fillet || tool is Chamfer,
    ensures
        line_action(tool, picks, has_reference, NumberReading::Number { positive: true }, coordinate_reads, s)
            == LineActionModel::SetToolValue,
{
}

} // verus!
