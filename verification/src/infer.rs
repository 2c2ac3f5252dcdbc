//! Construction-guide kinds offered while tracking a line's original axis.
use vstd::prelude::*;

verus! {

/// The kind of an inferred construction guide.
#[derive(Clone, Copy, Debug, PartialEq, Eq, Structural)]
pub enum GuideKind {
    Extension,
}

impl GuideKind {
    /// Human-readable name shown next to the guide.
    pub fn label(self) -> (r: &'static str)
        ensures
            r@ == "Extension"@,
    {
        match self {
            GuideKind::Extension => "Extension",
        }
    }
}

} // verus!
