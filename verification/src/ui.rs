//! Interaction vocabulary of the editor: toolbar icons and their colouring,
//! bounding-box handles and trim/extend previews.
use vstd::prelude::*;
use crate::document::Rgb;
use crate::text::{hex_char, push_hex_byte, replace_all, replaced};

verus! {

/// A toolbar or panel icon.
#[derive(Clone, Copy, Debug, PartialEq, Eq, Hash, Structural)]
pub enum Icon {
    Select,
    Line,
    Circle,
    Ellipse,
    Arc,
    Rectangle,
    Polygon,
    Spline,
    Polyline,
    Text,
    Move,
    Copy,
    Rotate,
    Scale,
    Mirror,
    Offset,
    Trim,
    Extend,
    Fillet,
    Chamfer,
    Stretch,
    Explode,
    Join,
    Hatch,
    Undo,
    Redo,
    Eye,
    EyeOff,
    ZoomIn,
    ZoomOut,
    ZoomFit,
    Pan,
    AddLayer,
    Delete,
}

/// A handle of the selection's bounding box: its body, a scaling corner or a
/// rotation corner.
#[derive(Clone, Copy, Debug, PartialEq, Eq, Structural)]
pub enum BboxHandle {
    Body,
    CornerNW,
    CornerNE,
    CornerSW,
    CornerSE,
    RotateNW,
    RotateNE,
    RotateSW,
    RotateSE,
}

/// What a trim or extend click would do to the entity under the cursor: the
/// piece it would cut away, or the piece it would add. `C` is the curve type.
#[derive(Clone, Debug)]
pub enum TrimExtendPreview<C> {
    Remove(C),
    Extension(C),
}


/// `#rrggbb` in lower-case hexadecimal.
pub open spec fn hex_text(c: Rgb) -> Seq<char> {
    seq![
        '#',
        hex_char(c.r as nat / 16),
        hex_char(c.r as nat % 16),
        hex_char(c.g as nat / 16),
        hex_char(c.g as nat % 16),
        hex_char(c.b as nat / 16),
        hex_char(c.b as nat % 16),
    ]
}

/// The colour as `#rrggbb`.
pub fn hex(c: Rgb) -> (r: String)
    ensures
        r@ == hex_text(c),
{
    let mut s = String::from_str("#");
    proof {
        reveal_strlit("#");
    }
    push_hex_byte(&mut s, c.r);
    push_hex_byte(&mut s, c.g);
    push_hex_byte(&mut s, c.b);
    assert(s@ =~= hex_text(c));
    s
}

/// An icon's SVG source with its drawing colours swapped: the red accent
/// (`#ec2024` or `red`) becomes `accent`, and black (`#000`) becomes `fg`.
pub open spec fn recoloured(src: Seq<char>, fg: Rgb, accent: Rgb) -> Seq<char> {
    replaced(
        replaced(
            replaced(src, ": #ec2024"@, ": "@ + hex_text(accent)),
            ": red"@,
            ": "@ + hex_text(accent),
        ),
        ": #000"@,
        ": "@ + hex_text(fg),
    )
}

/// Recolours an icon's SVG source for the given foreground and accent.
pub fn recolour(src: &str, fg: Rgb, accent: Rgb) -> (r: String)
    ensures
        r@ == recoloured(src@, fg, accent),
{
    proof {
        reveal_strlit(": #ec2024");
        reveal_strlit(": red");
        reveal_strlit(": #000");
    }
    let mut with_accent = String::from_str(": ");
    with_accent.append(hex(accent).as_str());
    let mut with_fg = String::from_str(": ");
    with_fg.append(hex(fg).as_str());
    let a = replace_all(src, ": #ec2024", with_accent.as_str());
    let b = replace_all(a.as_str(), ": red", with_accent.as_str());
    replace_all(b.as_str(), ": #000", with_fg.as_str())
}

} // verus!
