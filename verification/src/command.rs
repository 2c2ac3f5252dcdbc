//! The command line: verbs, their aliases and arguments.
use vstd::prelude::*;
use crate::tools::ToolKind;
use crate::words::{
    all_ws, back_ws_from, chars_of, lemma_back_ws, lemma_skip_ws, lemma_surrounding_blanks,
    next_word, skip_ws_from, trim, trimmed, word_at, words, words_from,
};

verus! {

/// ASCII upper case of `c`; other characters are left as they are.
pub open spec fn ascii_upper(c: char) -> char {
    if 'a' <= c <= 'z' {
        ((c as u32) - 32) as char
    } else {
        c
    }
}

/// ASCII upper case of every character of `s`.
pub open spec fn upper(s: Seq<char>) -> Seq<char> {
    s.map_values(|c: char| ascii_upper(c))
}

fn upper_char(c: char) -> (r: char)
    ensures
        r == ascii_upper(c),
{
    if 'a' <= c && c <= 'z' {
        ((c as u8) - 32) as char
    } else {
        c
    }
}

/// Whether the word `v[a..e]`, in ASCII upper case, is `kw`.
pub(crate) fn word_is(v: &Vec<char>, a: usize, e: usize, kw: &str) -> (r: bool)
    requires
        a <= e <= v.len(),
    ensures
        r == (upper(v@.subrange(a as int, e as int)) == kw@),
{
    let n = kw.unicode_len();
    if e - a != n {
        return false;
    }
    let mut i: usize = 0;
    while i < n
        invariant
            n == kw@.len(),
            e - a == n,
            a <= e <= v.len(),
            i <= n,
            forall|k: int| 0 <= k < i ==> ascii_upper(v@[a + k]) == kw@[k],
        decreases n - i,
    {
        if upper_char(v[a + i]) != kw.get_char(i) {
            assert(upper(v@.subrange(a as int, e as int))[i as int] != kw@[i as int]);
            return false;
        }
        i = i + 1;
    }
    assert(upper(v@.subrange(a as int, e as int)) =~= kw@);
    true
}


/// A decimal digit.
pub open spec fn is_digit(c: char) -> bool {
    '0' <= c <= '9'
}

/// The value of the decimal digits `d` (most significant first).
pub open spec fn digits_value(d: Seq<char>) -> nat
    decreases d.len(),
{
    if d.len() == 0 {
        0
    } else {
        digits_value(d.drop_last()) * 10 + ((d.last() as int) - 48) as nat
    }
}

/// `t` without the `+` sign that may lead it.
pub open spec fn unsigned_part(t: Seq<char>) -> Seq<char> {
    if t.len() > 0 && t[0] == '+' {
        t.drop_first()
    } else {
        t
    }
}

/// One or more decimal digits.
pub open spec fn all_digits(d: Seq<char>) -> bool {
    d.len() > 0 && forall|i: int| 0 <= i < d.len() ==> is_digit(#[trigger] d[i])
}

/// What `usize::from_str` gives for `t`: an optional `+`, then one or more
/// decimal digits whose value fits in `usize`.
pub open spec fn parse_usize(t: Seq<char>) -> Option<usize> {
    let d = unsigned_part(t);
    if all_digits(d) && digits_value(d) <= usize::MAX {
        Some(digits_value(d) as usize)
    } else {
        None
    }
}

proof fn lemma_digits_prefix(d: Seq<char>, k: int)
    requires
        0 <= k <= d.len(),
    ensures
        digits_value(d.take(k)) <= digits_value(d),
    decreases d.len(),
{
    if k < d.len() {
        assert(d.drop_last().take(k) =~= d.take(k));
        lemma_digits_prefix(d.drop_last(), k);
    } else {
        assert(d.take(k) =~= d);
    }
}

/// The number written in `v[a..e]`, as `usize::from_str` reads it.
pub(crate) fn parse_count(v: &Vec<char>, a: usize, e: usize) -> (r: Option<usize>)
    requires
        a <= e <= v.len(),
    ensures
        r == parse_usize(v@.subrange(a as int, e as int)),
{
    let ghost t = v@.subrange(a as int, e as int);
    let mut i = a;
    if i < e && v[i] == '+' {
        i = i + 1;
    }
    let start = i;
    let ghost d = unsigned_part(t);
    assert(d =~= v@.subrange(start as int, e as int));
    if i == e {
        return None;
    }
    let mut acc: usize = 0;
    while i < e
        invariant
            a <= start <= i <= e <= v.len(),
            t == v@.subrange(a as int, e as int),
            d == unsigned_part(t),
            d == v@.subrange(start as int, e as int),
            acc == digits_value(d.take(i - start)),
            forall|k: int| 0 <= k < i - start ==> is_digit(#[trigger] d[k]),
        decreases e - i,
    {
        let c = v[i];
        assert(c == d[i - start]);
        if !('0' <= c && c <= '9') {
            assert(!is_digit(d[i - start]));
            return None;
        }
        let ghost next = d.take(i - start + 1);
        assert(next.drop_last() =~= d.take(i - start));
        assert(next.last() == c);
        assert(digits_value(next) == acc * 10 + ((c as int) - 48));
        let digit = (c as u32 - 48) as usize;
        proof {
            lemma_digits_prefix(d, i - start + 1);
        }
        match acc.checked_mul(10) {
            None => {
                return None;
            },
            Some(m) => match m.checked_add(digit) {
                None => {
                    return None;
                },
                Some(s) => {
                    acc = s;
                },
            },
        }
        i = i + 1;
    }
    assert(d.take(i - start) =~= d);
    Some(acc)
}

/// What a command line asks for, with its words as character sequences.
pub enum CommandModel {
    Activate { tool: ToolKind, value: Option<Seq<char>> },
    ZoomExtents,
    ZoomScale(Seq<char>),
    Undo,
    Redo,
    Erase,
    Explode,
    Join,
    Hatch,
    LayerSet(Seq<char>),
    LayerNew(Seq<char>),
    SelectAll,
    Cancel,
    Unknown(Seq<char>),
}

/// What a command line asks for.
///
/// `Activate` carries, for the tools that take a number with them
/// (`CircleTtr`, `Offset`, `Fillet`, `Chamfer`), the word typed after the
/// verb, if any; reading it as a number is left to the caller.
/// `ZoomScale` carries the word after `ZOOM` when it is not `E` or
/// `EXTENTS`: a scale factor to be read as a number.
#[derive(Clone, Debug)]
pub enum Command {
    Activate { tool: ToolKind, value: Option<String> },
    ZoomExtents,
    ZoomScale(String),
    Undo,
    Redo,
    Erase,
    Explode,
    Join,
    Hatch,
    LayerSet(String),
    LayerNew(String),
    SelectAll,
    Cancel,
    Unknown(String),
}

impl View for Command {
    type V = CommandModel;

    open spec fn view(&self) -> CommandModel {
        match self {
            Command::Activate { tool, value } => CommandModel::Activate {
                tool: *tool,
                value: match value {
                    Some(s) => Some(s@),
                    None => None,
                },
            },
            Command::ZoomExtents => CommandModel::ZoomExtents,
            Command::ZoomScale(s) => CommandModel::ZoomScale(s@),
            Command::Undo => CommandModel::Undo,
            Command::Redo => CommandModel::Redo,
            Command::Erase => CommandModel::Erase,
            Command::Explode => CommandModel::Explode,
            Command::Join => CommandModel::Join,
            Command::Hatch => CommandModel::Hatch,
            Command::LayerSet(s) => CommandModel::LayerSet(s@),
            Command::LayerNew(s) => CommandModel::LayerNew(s@),
            Command::SelectAll => CommandModel::SelectAll,
            Command::Cancel => CommandModel::Cancel,
            Command::Unknown(s) => CommandModel::Unknown(s@),
        }
    }
}

/// The number of sides typed after `POLYGON`: the first argument word when
/// it reads as a count of at least three.
pub open spec fn polygon_sides(rest: Seq<Seq<char>>) -> Option<usize> {
    if rest.len() > 0 {
        match parse_usize(rest[0]) {
            Some(n) => if n >= 3 {
                Some(n)
            } else {
                None
            },
            None => None,
        }
    } else {
        None
    }
}

/// The tool that the verb `verb` (in upper case) names, if any.
pub open spec fn tool_named(verb: Seq<char>, sides: Option<usize>) -> Option<ToolKind> {
    if verb == "LINE"@ || verb == "L"@ {
        Some(ToolKind::Line)
    } else if verb == "CIRCLE"@ || verb == "C"@ {
        Some(ToolKind::Circle)
    } else if verb == "ARC"@ || verb == "A"@ {
        Some(ToolKind::Arc3)
    } else if verb == "ARCSCE"@ || verb == "ASCE"@ {
        Some(ToolKind::ArcStartCenterEnd)
    } else if verb == "ARCCSE"@ || verb == "ACSE"@ {
        Some(ToolKind::ArcCenterStartEnd)
    } else if verb == "CIRCLE2P"@ || verb == "C2P"@ {
        Some(ToolKind::CircleTwoPoint)
    } else if verb == "CIRCLE3P"@ || verb == "C3P"@ {
        Some(ToolKind::CircleThreePoint)
    } else if verb == "TTR"@ || verb == "CIRCLETTR"@ {
        Some(ToolKind::CircleTtr)
    } else if verb == "TTT"@ || verb == "CIRCLETTT"@ {
        Some(ToolKind::CircleTtt)
    } else if verb == "TANGENT"@ || verb == "TAN"@ {
        Some(ToolKind::TangentLine)
    } else if verb == "DIMENSION"@ || verb == "DIM"@ || verb == "DIMLINEAR"@ || verb
        == "DIMALIGNED"@ {
        Some(ToolKind::Dimension)
    } else if verb == "ELLIPSE"@ || verb == "EL"@ {
        Some(ToolKind::Ellipse)
    } else if verb == "RECTANGLE"@ || verb == "REC"@ || verb == "RECTANG"@ {
        Some(ToolKind::Rectangle)
    } else if verb == "MOVE"@ || verb == "M"@ {
        Some(ToolKind::Move)
    } else if verb == "COPY"@ || verb == "CO"@ || verb == "CP"@ {
        Some(ToolKind::Copy)
    } else if verb == "POLYGON"@ || verb == "POL"@ {
        Some(ToolKind::Polygon { sides })
    } else if verb == "SPLINE"@ || verb == "SPL"@ {
        Some(ToolKind::Spline)
    } else if verb == "POLYLINE"@ || verb == "PLINE"@ || verb == "PL"@ {
        Some(ToolKind::Polyline)
    } else if verb == "SELECT"@ || verb == "SE"@ {
        Some(ToolKind::Select)
    } else if verb == "TEXT"@ || verb == "T"@ || verb == "DT"@ || verb == "DTEXT"@ || verb
        == "MTEXT"@ || verb == "MT"@ {
        Some(ToolKind::Text)
    } else if verb == "ROTATE"@ || verb == "RO"@ {
        Some(ToolKind::Rotate)
    } else if verb == "SCALE"@ || verb == "SC"@ {
        Some(ToolKind::Scale)
    } else if verb == "MIRROR"@ || verb == "MI"@ {
        Some(ToolKind::Mirror)
    } else if verb == "TRIM"@ || verb == "TR"@ {
        Some(ToolKind::Trim)
    } else if verb == "EXTEND"@ || verb == "EX"@ {
        Some(ToolKind::Extend)
    } else if verb == "OFFSET"@ || verb == "O"@ {
        Some(ToolKind::Offset)
    } else if verb == "FILLET"@ || verb == "F"@ {
        Some(ToolKind::Fillet)
    } else if verb == "CHAMFER"@ || verb == "CHA"@ {
        Some(ToolKind::Chamfer)
    } else if verb == "STRETCH"@ || verb == "S"@ {
        Some(ToolKind::Stretch)
    } else {
        None
    }
}

/// The tools that take a number typed after their verb.
pub open spec fn takes_value(t: ToolKind) -> bool {
    t is CircleTtr || t is Offset || t is Fillet || t is Chamfer
}

/// `ZOOM` with the argument words `rest`.
pub open spec fn zoom_command(rest: Seq<Seq<char>>) -> CommandModel {
    if rest.len() == 0 || upper(rest[0]) == "E"@ || upper(rest[0]) == "EXTENTS"@ {
        CommandModel::ZoomExtents
    } else {
        CommandModel::ZoomScale(rest[0])
    }
}

/// `LAYER` with the argument words `rest`.
pub open spec fn layer_command(rest: Seq<Seq<char>>) -> CommandModel {
    if rest.len() >= 2 && (upper(rest[0]) == "S"@ || upper(rest[0]) == "SET"@) {
        CommandModel::LayerSet(rest[1])
    } else if rest.len() >= 2 && (upper(rest[0]) == "N"@ || upper(rest[0]) == "NEW"@ || upper(
        rest[0],
    ) == "M"@ || upper(rest[0]) == "MAKE"@) {
        CommandModel::LayerNew(rest[1])
    } else {
        CommandModel::Unknown("LAYER"@)
    }
}

/// What the command line `s` asks for. The verb is its first word, in any
/// letter case; the words after it are its arguments.
pub open spec fn command_of(s: Seq<char>) -> CommandModel {
    let w = words(s);
    if w.len() == 0 {
        CommandModel::Cancel
    } else {
        let verb = upper(w[0]);
        let rest = w.drop_first();
        match tool_named(verb, polygon_sides(rest)) {
            Some(t) => CommandModel::Activate {
                tool: t,
                value: if takes_value(t) && rest.len() > 0 {
                    Some(rest[0])
                } else {
                    None
                },
            },
            None => if verb == "ERASE"@ || verb == "E"@ || verb == "DEL"@ || verb == "DELETE"@ {
                CommandModel::Erase
            } else if verb == "DISJOINT"@ || verb == "EXPLODE"@ || verb == "X"@ {
                CommandModel::Explode
            } else if verb == "JOIN"@ || verb == "J"@ {
                CommandModel::Join
            } else if verb == "HATCH"@ || verb == "H"@ {
                CommandModel::Hatch
            } else if verb == "UNDO"@ || verb == "U"@ {
                CommandModel::Undo
            } else if verb == "REDO"@ {
                CommandModel::Redo
            } else if verb == "ALL"@ {
                CommandModel::SelectAll
            } else if verb == "ZOOM"@ || verb == "Z"@ {
                zoom_command(rest)
            } else if verb == "LAYER"@ || verb == "LA"@ {
                layer_command(rest)
            } else {
                CommandModel::Unknown(trim(s))
            },
        }
    }
}


/// The tool named by the word `v[a..e]`, with `sides` for a polygon.
fn tool_verb(v: &Vec<char>, a: usize, e: usize, sides: Option<usize>) -> (r: Option<ToolKind>)
    requires
        a <= e <= v.len(),
    ensures
        r == tool_named(upper(v@.subrange(a as int, e as int)), sides),
{
    if word_is(v, a, e, "LINE") || word_is(v, a, e, "L") {
        Some(ToolKind::Line)
    } else if word_is(v, a, e, "CIRCLE") || word_is(v, a, e, "C") {
        Some(ToolKind::Circle)
    } else if word_is(v, a, e, "ARC") || word_is(v, a, e, "A") {
        Some(ToolKind::Arc3)
    } else if word_is(v, a, e, "ARCSCE") || word_is(v, a, e, "ASCE") {
        Some(ToolKind::ArcStartCenterEnd)
    } else if word_is(v, a, e, "ARCCSE") || word_is(v, a, e, "ACSE") {
        Some(ToolKind::ArcCenterStartEnd)
    } else if word_is(v, a, e, "CIRCLE2P") || word_is(v, a, e, "C2P") {
        Some(ToolKind::CircleTwoPoint)
    } else if word_is(v, a, e, "CIRCLE3P") || word_is(v, a, e, "C3P") {
        Some(ToolKind::CircleThreePoint)
    } else if word_is(v, a, e, "TTR") || word_is(v, a, e, "CIRCLETTR") {
        Some(ToolKind::CircleTtr)
    } else if word_is(v, a, e, "TTT") || word_is(v, a, e, "CIRCLETTT") {
        Some(ToolKind::CircleTtt)
    } else if word_is(v, a, e, "TANGENT") || word_is(v, a, e, "TAN") {
        Some(ToolKind::TangentLine)
    } else if word_is(v, a, e, "DIMENSION") || word_is(v, a, e, "DIM") || word_is(
        v,
        a,
        e,
        "DIMLINEAR",
    ) || word_is(v, a, e, "DIMALIGNED") {
        Some(ToolKind::Dimension)
    } else if word_is(v, a, e, "ELLIPSE") || word_is(v, a, e, "EL") {
        Some(ToolKind::Ellipse)
    } else if word_is(v, a, e, "RECTANGLE") || word_is(v, a, e, "REC") || word_is(
        v,
        a,
        e,
        "RECTANG",
    ) {
        Some(ToolKind::Rectangle)
    } else if word_is(v, a, e, "MOVE") || word_is(v, a, e, "M") {
        Some(ToolKind::Move)
    } else if word_is(v, a, e, "COPY") || word_is(v, a, e, "CO") || word_is(v, a, e, "CP") {
        Some(ToolKind::Copy)
    } else if word_is(v, a, e, "POLYGON") || word_is(v, a, e, "POL") {
        Some(ToolKind::Polygon { sides })
    } else if word_is(v, a, e, "SPLINE") || word_is(v, a, e, "SPL") {
        Some(ToolKind::Spline)
    } else if word_is(v, a, e, "POLYLINE") || word_is(v, a, e, "PLINE") || word_is(
        v,
        a,
        e,
        "PL",
    ) {
        Some(ToolKind::Polyline)
    } else if word_is(v, a, e, "SELECT") || word_is(v, a, e, "SE") {
        Some(ToolKind::Select)
    } else if word_is(v, a, e, "TEXT") || word_is(v, a, e, "T") || word_is(v, a, e, "DT")
        || word_is(v, a, e, "DTEXT") || word_is(v, a, e, "MTEXT") || word_is(v, a, e, "MT") {
        Some(ToolKind::Text)
    } else if word_is(v, a, e, "ROTATE") || word_is(v, a, e, "RO") {
        Some(ToolKind::Rotate)
    } else if word_is(v, a, e, "SCALE") || word_is(v, a, e, "SC") {
        Some(ToolKind::Scale)
    } else if word_is(v, a, e, "MIRROR") || word_is(v, a, e, "MI") {
        Some(ToolKind::Mirror)
    } else if word_is(v, a, e, "TRIM") || word_is(v, a, e, "TR") {
        Some(ToolKind::Trim)
    } else if word_is(v, a, e, "EXTEND") || word_is(v, a, e, "EX") {
        Some(ToolKind::Extend)
    } else if word_is(v, a, e, "OFFSET") || word_is(v, a, e, "O") {
        Some(ToolKind::Offset)
    } else if word_is(v, a, e, "FILLET") || word_is(v, a, e, "F") {
        Some(ToolKind::Fillet)
    } else if word_is(v, a, e, "CHAMFER") || word_is(v, a, e, "CHA") {
        Some(ToolKind::Chamfer)
    } else if word_is(v, a, e, "STRETCH") || word_is(v, a, e, "S") {
        Some(ToolKind::Stretch)
    } else {
        None
    }
}

/// Reads the command line `input`: its first word, in any letter case, is
/// the verb and the words after it are its arguments. A blank line cancels;
/// a verb that names nothing gives `Unknown` with the line trimmed.
pub fn parse_command(input: &str) -> (r: Command)
    ensures
        r@ == command_of(input@),
{
    let v = chars_of(input);
    let n = v.len();
    let (a0, e0) = next_word(&v, 0);
    if a0 == n {
        return Command::Cancel;
    }
    let (a1, e1) = next_word(&v, e0);
    let (a2, e2) = next_word(&v, e1);
    let ghost rest = words_from(v@, e0 as int);
    assert(words(v@)[0] == v@.subrange(a0 as int, e0 as int));
    assert(words(v@).drop_first() =~= rest);
    assert(rest.len() > 0 <==> a1 < n);
    assert(a1 < n ==> rest[0] == v@.subrange(a1 as int, e1 as int));
    assert(rest.len() > 1 <==> (a1 < n && a2 < n));
    assert(a1 < n && a2 < n ==> rest[1] == v@.subrange(a2 as int, e2 as int));
    let sides = if a1 < n {
        match parse_count(&v, a1, e1) {
            Some(k) => if k >= 3 {
                Some(k)
            } else {
                None
            },
            None => None,
        }
    } else {
        None
    };
    assert(sides == polygon_sides(rest));
    match tool_verb(&v, a0, e0, sides) {
        Some(t) => {
            let takes = match t {
                ToolKind::CircleTtr | ToolKind::Offset | ToolKind::Fillet | ToolKind::Chamfer => true,
                _ => false,
            };
            let value = if takes && a1 < n {
                Some(word_at(input, a1, e1))
            } else {
                None
            };
            Command::Activate { tool: t, value }
        },
        None => {
            if word_is(&v, a0, e0, "ERASE") || word_is(&v, a0, e0, "E") || word_is(
                &v,
                a0,
                e0,
                "DEL",
            ) || word_is(&v, a0, e0, "DELETE") {
                Command::Erase
            } else if word_is(&v, a0, e0, "DISJOINT") || word_is(&v, a0, e0, "EXPLODE")
                || word_is(&v, a0, e0, "X") {
                Command::Explode
            } else if word_is(&v, a0, e0, "JOIN") || word_is(&v, a0, e0, "J") {
                Command::Join
            } else if word_is(&v, a0, e0, "HATCH") || word_is(&v, a0, e0, "H") {
                Command::Hatch
            } else if word_is(&v, a0, e0, "UNDO") || word_is(&v, a0, e0, "U") {
                Command::Undo
            } else if word_is(&v, a0, e0, "REDO") {
                Command::Redo
            } else if word_is(&v, a0, e0, "ALL") {
                Command::SelectAll
            } else if word_is(&v, a0, e0, "ZOOM") || word_is(&v, a0, e0, "Z") {
                if a1 == n || word_is(&v, a1, e1, "E") || word_is(&v, a1, e1, "EXTENTS") {
                    Command::ZoomExtents
                } else {
                    Command::ZoomScale(word_at(input, a1, e1))
                }
            } else if word_is(&v, a0, e0, "LAYER") || word_is(&v, a0, e0, "LA") {
                if a2 < n && (word_is(&v, a1, e1, "S") || word_is(&v, a1, e1, "SET")) {
                    Command::LayerSet(word_at(input, a2, e2))
                } else if a2 < n && (word_is(&v, a1, e1, "N") || word_is(&v, a1, e1, "NEW")
                    || word_is(&v, a1, e1, "M") || word_is(&v, a1, e1, "MAKE")) {
                    Command::LayerNew(word_at(input, a2, e2))
                } else {
                    Command::Unknown(String::from_str("LAYER"))
                }
            } else {
                Command::Unknown(trimmed(input))
            }
        },
    }
}


/// A command line cancels exactly when it is blank.
pub proof fn lemma_cancel_iff_blank(s: Seq<char>)
    ensures
        (command_of(s) is Cancel) <==> trim(s).len() == 0,
{
    lemma_skip_ws(s, 0);
    lemma_back_ws(s, s.len() as int);
    let a = skip_ws_from(s, 0);
    if a < s.len() {
        assert(!crate::words::is_ws(s[a]));
        assert(a < back_ws_from(s, s.len() as int));
        assert(words(s).len() > 0);
    }
}

/// The first position at or after `i` that holds `c` (`s.len()` if none).
pub open spec fn find_from(s: Seq<char>, c: char, i: int) -> int
    decreases s.len() - i,
{
    if 0 <= i < s.len() && s[i] != c {
        find_from(s, c, i + 1)
    } else {
        i
    }
}

/// The first position of `c` in `v` (`v.len()` if it does not occur).
fn find_char(v: &Vec<char>, c: char) -> (r: usize)
    ensures
        r == find_from(v@, c, 0),
{
    let mut i: usize = 0;
    while i < v.len() && v[i] != c
        invariant
            i <= v.len(),
            find_from(v@, c, i as int) == find_from(v@, c, 0),
        decreases v.len() - i,
    {
        i = i + 1;
    }
    i
}

proof fn lemma_find_bound(s: Seq<char>, c: char, i: int)
    requires
        0 <= i <= s.len(),
    ensures
        i <= find_from(s, c, i) <= s.len(),
    decreases s.len() - i,
{
    if i < s.len() && s[i] != c {
        lemma_find_bound(s, c, i + 1);
    }
}

/// A typed coordinate cut into its parts: whether it is relative to the
/// last point (a leading `@`), whether it is polar (`distance<angle`, else
/// `x,y`), and the two numbers' texts, trimmed. Reading the numbers is left
/// to the caller.
pub struct CoordParts {
    pub relative: bool,
    pub polar: bool,
    pub first: String,
    pub second: String,
}

/// How the text `s` is cut into a coordinate's parts, if it has the shape
/// of one: trimmed, an optional `@` and what follows it trimmed, then cut
/// at the first `<` or, where there is none, at the first `,`.
pub open spec fn coord_split(s: Seq<char>) -> Option<(bool, bool, Seq<char>, Seq<char>)> {
    let t = trim(s);
    if t.len() == 0 {
        None
    } else {
        let relative = t[0] == '@';
        let body = if relative {
            trim(t.drop_first())
        } else {
            t
        };
        let p = find_from(body, '<', 0);
        let q = find_from(body, ',', 0);
        if p < body.len() {
            Some((relative, true, trim(body.take(p)), trim(body.skip(p + 1))))
        } else if q < body.len() {
            Some((relative, false, trim(body.take(q)), trim(body.skip(q + 1))))
        } else {
            None
        }
    }
}

/// Cuts a typed coordinate (`x,y`, `@dx,dy`, `dist<angle` or
/// `@dist<angle`) into its parts; `None` when the text has none of these
/// shapes.
pub fn split_coordinate(input: &str) -> (r: Option<CoordParts>)
    ensures
        match r {
            None => coord_split(input@) is None,
            Some(p) => coord_split(input@) == Some((p.relative, p.polar, p.first@, p.second@)),
        },
{
    let t = trimmed(input);
    let tv = chars_of(t.as_str());
    if tv.len() == 0 {
        return None;
    }
    let relative = tv[0] == '@';
    let body = if relative {
        trimmed(t.as_str().substring_char(1, tv.len()))
    } else {
        t
    };
    proof {
        if relative {
            assert(t@.subrange(1, t@.len() as int) =~= t@.drop_first());
        }
    }
    let bv = chars_of(body.as_str());
    let p = find_char(&bv, '<');
    proof {
        lemma_find_bound(bv@, '<', 0);
    }
    if p < bv.len() {
        let first = trimmed(body.as_str().substring_char(0, p));
        let second = trimmed(body.as_str().substring_char(p + 1, bv.len()));
        assert(body@.subrange(0, p as int) =~= body@.take(p as int));
        assert(body@.subrange(p + 1, body@.len() as int) =~= body@.skip(p + 1));
        return Some(CoordParts { relative, polar: true, first, second });
    }
    let q = find_char(&bv, ',');
    proof {
        lemma_find_bound(bv@, ',', 0);
    }
    if q < bv.len() {
        let first = trimmed(body.as_str().substring_char(0, q));
        let second = trimmed(body.as_str().substring_char(q + 1, bv.len()));
        assert(body@.subrange(0, q as int) =~= body@.take(q as int));
        assert(body@.subrange(q + 1, body@.len() as int) =~= body@.skip(q + 1));
        return Some(CoordParts { relative, polar: false, first, second });
    }
    None
}


/// The verbs of the tools that take a number name those tools.
proof fn lemma_value_verbs(verb: Seq<char>, sides: Option<usize>)
    ensures
        verb == "TTR"@ || verb == "CIRCLETTR"@ ==> tool_named(verb, sides) == Some(ToolKind::CircleTtr),
        verb == "OFFSET"@ || verb == "O"@ ==> tool_named(verb, sides) == Some(ToolKind::Offset),
        verb == "FILLET"@ || verb == "F"@ ==> tool_named(verb, sides) == Some(ToolKind::Fillet),
        verb == "CHAMFER"@ || verb == "CHA"@ ==> tool_named(verb, sides) == Some(ToolKind::Chamfer),
{
    reveal_strlit("A");
    reveal_strlit("ACSE");
    reveal_strlit("ARC");
    reveal_strlit("ARCCSE");
    reveal_strlit("ARCSCE");
    reveal_strlit("ASCE");
    reveal_strlit("C");
    reveal_strlit("C2P");
    reveal_strlit("C3P");
    reveal_strlit("CHA");
    reveal_strlit("CHAMFER");
    reveal_strlit("CIRCLE");
    reveal_strlit("CIRCLE2P");
    reveal_strlit("CIRCLE3P");
    reveal_strlit("CIRCLETTR");
    reveal_strlit("CIRCLETTT");
    reveal_strlit("CO");
    reveal_strlit("COPY");
    reveal_strlit("CP");
    reveal_strlit("DIM");
    reveal_strlit("DIMALIGNED");
    reveal_strlit("DIMENSION");
    reveal_strlit("DIMLINEAR");
    reveal_strlit("DT");
    reveal_strlit("DTEXT");
    reveal_strlit("EL");
    reveal_strlit("ELLIPSE");
    reveal_strlit("EX");
    reveal_strlit("EXTEND");
    reveal_strlit("F");
    reveal_strlit("FILLET");
    reveal_strlit("L");
    reveal_strlit("LINE");
    reveal_strlit("M");
    reveal_strlit("MI");
    reveal_strlit("MIRROR");
    reveal_strlit("MOVE");
    reveal_strlit("MT");
    reveal_strlit("MTEXT");
    reveal_strlit("O");
    reveal_strlit("OFFSET");
    reveal_strlit("PL");
    reveal_strlit("PLINE");
    reveal_strlit("POL");
    reveal_strlit("POLYGON");
    reveal_strlit("POLYLINE");
    reveal_strlit("REC");
    reveal_strlit("RECTANG");
    reveal_strlit("RECTANGLE");
    reveal_strlit("RO");
    reveal_strlit("ROTATE");
    reveal_strlit("SC");
    reveal_strlit("SCALE");
    reveal_strlit("SE");
    reveal_strlit("SELECT");
    reveal_strlit("SPL");
    reveal_strlit("SPLINE");
    reveal_strlit("T");
    reveal_strlit("TAN");
    reveal_strlit("TANGENT");
    reveal_strlit("TEXT");
    reveal_strlit("TR");
    reveal_strlit("TRIM");
    reveal_strlit("TTR");
    reveal_strlit("TTT");
    if verb == "TTR"@ {
        assert(verb.len() == 3);
        assert("TTR"@[0] != "ARC"@[0]);
        assert("TTR"@[0] != "C2P"@[0]);
        assert("TTR"@[0] != "C3P"@[0]);
    }
    if verb == "CIRCLETTR"@ {
        assert(verb.len() == 9);
    }
    if verb == "OFFSET"@ {
        assert(verb.len() == 6);
        assert("OFFSET"@[0] != "CIRCLE"@[0]);
        assert("OFFSET"@[0] != "ARCSCE"@[0]);
        assert("OFFSET"@[0] != "ARCCSE"@[0]);
        assert("OFFSET"@[0] != "SPLINE"@[0]);
        assert("OFFSET"@[0] != "SELECT"@[0]);
        assert("OFFSET"@[0] != "ROTATE"@[0]);
        assert("OFFSET"@[0] != "MIRROR"@[0]);
        assert("OFFSET"@[0] != "EXTEND"@[0]);
    }
    if verb == "O"@ {
        assert(verb.len() == 1);
        assert("O"@[0] != "L"@[0]);
        assert("O"@[0] != "C"@[0]);
        assert("O"@[0] != "A"@[0]);
        assert("O"@[0] != "M"@[0]);
        assert("O"@[0] != "T"@[0]);
    }
    if verb == "FILLET"@ {
        assert(verb.len() == 6);
        assert("FILLET"@[0] != "CIRCLE"@[0]);
        assert("FILLET"@[0] != "ARCSCE"@[0]);
        assert("FILLET"@[0] != "ARCCSE"@[0]);
        assert("FILLET"@[0] != "SPLINE"@[0]);
        assert("FILLET"@[0] != "SELECT"@[0]);
        assert("FILLET"@[0] != "ROTATE"@[0]);
        assert("FILLET"@[0] != "MIRROR"@[0]);
        assert("FILLET"@[0] != "EXTEND"@[0]);
        assert("FILLET"@[0] != "OFFSET"@[0]);
    }
    if verb == "F"@ {
        assert(verb.len() == 1);
        assert("F"@[0] != "L"@[0]);
        assert("F"@[0] != "C"@[0]);
        assert("F"@[0] != "A"@[0]);
        assert("F"@[0] != "M"@[0]);
        assert("F"@[0] != "T"@[0]);
        assert("F"@[0] != "O"@[0]);
    }
    if verb == "CHAMFER"@ {
        assert(verb.len() == 7);
        assert("CHAMFER"@[0] != "TANGENT"@[0]);
        assert("CHAMFER"@[0] != "ELLIPSE"@[0]);
        assert("CHAMFER"@[0] != "RECTANG"@[0]);
        assert("CHAMFER"@[0] != "POLYGON"@[0]);
    }
    if verb == "CHA"@ {
        assert(verb.len() == 3);
        assert("CHA"@[0] != "ARC"@[0]);
        assert("CHA"@[1] != "C2P"@[1]);
        assert("CHA"@[1] != "C3P"@[1]);
        assert("CHA"@[0] != "TTR"@[0]);
        assert("CHA"@[0] != "TTT"@[0]);
        assert("CHA"@[0] != "TAN"@[0]);
        assert("CHA"@[0] != "DIM"@[0]);
        assert("CHA"@[0] != "REC"@[0]);
        assert("CHA"@[0] != "POL"@[0]);
        assert("CHA"@[0] != "SPL"@[0]);
    }
}


/// The word typed after the verb of the command line `s`, if any.
pub open spec fn typed_argument(s: Seq<char>) -> Option<Seq<char>> {
    if words(s).len() > 1 {
        Some(words(s)[1])
    } else {
        None
    }
}

/// A tool that takes a number keeps the word typed after its verb:
/// `FILLET 5` (or `F 5`) activates the fillet tool with the radius `5`,
/// `CHAMFER`/`CHA` the chamfer tool with its distance, `OFFSET`/`O` the
/// offset tool with its distance, and `TTR`/`CIRCLETTR` the tangent circle
/// with its radius; with nothing after the verb the value is left out.
pub proof fn lemma_value_tools_keep_argument(s: Seq<char>)
    ensures
        words(s).len() > 0 && (upper(words(s)[0]) == "FILLET"@ || upper(words(s)[0]) == "F"@)
            ==> command_of(s) == (CommandModel::Activate {
            tool: ToolKind::Fillet,
            value: typed_argument(s),
        }),
        words(s).len() > 0 && (upper(words(s)[0]) == "CHAMFER"@ || upper(words(s)[0]) == "CHA"@)
            ==> command_of(s) == (CommandModel::Activate {
            tool: ToolKind::Chamfer,
            value: typed_argument(s),
        }),
        words(s).len() > 0 && (upper(words(s)[0]) == "OFFSET"@ || upper(words(s)[0]) == "O"@)
            ==> command_of(s) == (CommandModel::Activate {
            tool: ToolKind::Offset,
            value: typed_argument(s),
        }),
        words(s).len() > 0 && (upper(words(s)[0]) == "TTR"@ || upper(words(s)[0]) == "CIRCLETTR"@)
            ==> command_of(s) == (CommandModel::Activate {
            tool: ToolKind::CircleTtr,
            value: typed_argument(s),
        }),
{
    let w = words(s);
    if w.len() > 0 {
        let rest = w.drop_first();
        lemma_value_verbs(upper(w[0]), polygon_sides(rest));
        if w.len() > 1 {
            assert(rest[0] == w[1]);
        }
    }
}

/// Blanks before and after a command line or a typed coordinate change
/// nothing about what it says.
pub proof fn lemma_surrounding_blanks_ignored(p: Seq<char>, s: Seq<char>, q: Seq<char>)
    requires
        all_ws(p),
        all_ws(q),
    ensures
        command_of(p + s + q) == command_of(s),
        coord_split(p + s + q) == coord_split(s),
{
    lemma_surrounding_blanks(p, s, q);
}

} // verus!
