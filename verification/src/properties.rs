//! Line weights and line types of entities, and how the inspector lists them.
use vstd::prelude::*;
use crate::text::{decimal, digit_char, push_decimal, push_digit};

verus! {

/// The line weight of an entity.
#[derive(Clone, Copy, Debug, PartialEq, Eq, Structural)]
pub enum LineWeight {
    ByLayer,
    ByBlock,
    /// A fixed weight in hundredths of a millimetre.
    Hundredths(u16),
}

/// The line type of an entity: inherited, or a named pattern.
#[derive(Clone, Debug)]
pub enum LineTypeRef {
    ByLayer,
    ByBlock,
    Named(String),
}

/// The label of a fixed line weight: millimetres with two decimals.
pub open spec fn mm_text(h: nat) -> Seq<char> {
    decimal(h / 100) + seq!['.', digit_char((h % 100) / 10), digit_char(h % 10)] + " mm"@
}

/// Human-readable label of a line weight.
pub open spec fn lw_text(w: LineWeight) -> Seq<char> {
    match w {
        LineWeight::ByBlock => "By block"@,
        LineWeight::Hundredths(h) => mm_text(h as nat),
        LineWeight::ByLayer => "By layer"@,
    }
}

/// Human-readable label of a line type: the solid pattern `Continuous` reads
/// as "Solid", other patterns by their name.
pub open spec fn lt_text(t: LineTypeRef) -> Seq<char> {
    match t {
        LineTypeRef::ByBlock => "By block"@,
        LineTypeRef::Named(n) => if n@ == "Continuous"@ {
            "Solid"@
        } else {
            n@
        },
        LineTypeRef::ByLayer => "By layer"@,
    }
}

/// The preset line-weight choices offered in the inspector and the line dialog.
pub fn lw_options() -> (r: [(&'static str, LineWeight); 7])
    ensures
        r@[0].0@ == "By layer"@ && r@[0].1 == LineWeight::ByLayer,
        r@[1].0@ == "0.13 mm"@ && r@[1].1 == LineWeight::Hundredths(13),
        r@[2].0@ == "0.25 mm"@ && r@[2].1 == LineWeight::Hundredths(25),
        r@[3].0@ == "0.35 mm"@ && r@[3].1 == LineWeight::Hundredths(35),
        r@[4].0@ == "0.50 mm"@ && r@[4].1 == LineWeight::Hundredths(50),
        r@[5].0@ == "0.70 mm"@ && r@[5].1 == LineWeight::Hundredths(70),
        r@[6].0@ == "1.00 mm"@ && r@[6].1 == LineWeight::Hundredths(100),
        forall|i: int| 1 <= i < 7 ==> #[trigger] r@[i].0@ == lw_text(r@[i].1),
{
    let r = [
        ("By layer", LineWeight::ByLayer),
        ("0.13 mm", LineWeight::Hundredths(13)),
        ("0.25 mm", LineWeight::Hundredths(25)),
        ("0.35 mm", LineWeight::Hundredths(35)),
        ("0.50 mm", LineWeight::Hundredths(50)),
        ("0.70 mm", LineWeight::Hundredths(70)),
        ("1.00 mm", LineWeight::Hundredths(100)),
    ];
    proof {
        reveal_strlit("0.13 mm");
        reveal_strlit("0.25 mm");
        reveal_strlit("0.35 mm");
        reveal_strlit("0.50 mm");
        reveal_strlit("0.70 mm");
        reveal_strlit("1.00 mm");
        reveal_strlit(" mm");
        assert(decimal(0) =~= seq!['0']);
        assert(decimal(1) =~= seq!['1']);
        assert(mm_text(13) =~= "0.13 mm"@);
        assert(mm_text(25) =~= "0.25 mm"@);
        assert(mm_text(35) =~= "0.35 mm"@);
        assert(mm_text(50) =~= "0.50 mm"@);
        assert(mm_text(70) =~= "0.70 mm"@);
        assert(mm_text(100) =~= "1.00 mm"@);
    }
    r
}

/// Human-readable label for a line weight.
pub fn lw_label(w: &LineWeight) -> (r: String)
    ensures
        r@ == lw_text(*w),
{
    match w {
        LineWeight::ByBlock => String::from_str("By block"),
        LineWeight::Hundredths(h) => {
            let h = *h as usize;
            let mut s = String::new();
            push_decimal(&mut s, h / 100);
            s.append(".");
            push_digit(&mut s, (h % 100) / 10);
            push_digit(&mut s, h % 10);
            s.append(" mm");
            proof {
                reveal_strlit(".");
                assert(s@ =~= mm_text(h as nat));
            }
            s
        },
        LineWeight::ByLayer => String::from_str("By layer"),
    }
}

/// The line-type choices offered in the inspector and the line dialog.
pub fn lt_options() -> (r: [(&'static str, LineTypeRef); 5])
    ensures
        r@[0].0@ == "By layer"@ && r@[0].1 is ByLayer,
        r@[1].0@ == "Solid"@,
        (r@[1].1 matches LineTypeRef::Named(n) && n@ == "Continuous"@),
        r@[2].0@ == "Dashed"@,
        (r@[2].1 matches LineTypeRef::Named(n) && n@ == "Dashed"@),
        r@[3].0@ == "Dotted"@,
        (r@[3].1 matches LineTypeRef::Named(n) && n@ == "Dotted"@),
        r@[4].0@ == "Center"@,
        (r@[4].1 matches LineTypeRef::Named(n) && n@ == "Center"@),
{
    [
        ("By layer", LineTypeRef::ByLayer),
        ("Solid", LineTypeRef::Named(String::from_str("Continuous"))),
        ("Dashed", LineTypeRef::Named(String::from_str("Dashed"))),
        ("Dotted", LineTypeRef::Named(String::from_str("Dotted"))),
        ("Center", LineTypeRef::Named(String::from_str("Center"))),
    ]
}

/// Human-readable label for a line type.
pub fn lt_label(t: &LineTypeRef) -> (r: String)
    ensures
        r@ == lt_text(*t),
{
    match t {
        LineTypeRef::ByBlock => String::from_str("By block"),
        LineTypeRef::Named(n) => {
            let solid = String::from_str("Continuous");
            if *n == solid {
                String::from_str("Solid")
            } else {
                n.clone()
            }
        },
        LineTypeRef::ByLayer => String::from_str("By layer"),
    }
}

} // verus!
