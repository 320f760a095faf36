use vstd::prelude::*;

verus! {

/// Whether two strings hold the same characters.
pub fn text_is(s: &str, lit: &str) -> (r: bool)
    ensures
        r == (s@ == lit@),
{
    let a = s.to_owned();
    let b = lit.to_owned();
    a == b
}

/// Horizontal alignment of a text.
#[derive(Debug, Clone, Copy, PartialEq, Eq)]
pub enum HAlign {
    Left,
    Center,
    Right,
}

impl Default for HAlign {
    fn default() -> (r: HAlign)
        ensures
            r == HAlign::Left,
    {
        HAlign::Left
    }
}

/// The alignment that a name gives: "left", "right" and "center" give their
/// own, anything else the default.
pub open spec fn halign_named(s: Seq<char>) -> HAlign {
    if s == "right"@ {
        HAlign::Right
    } else if s == "center"@ {
        HAlign::Center
    } else {
        HAlign::Left
    }
}

impl HAlign {
    /// Reads an alignment from its name; unknown names give `Left`.
    pub fn from_name(s: &str) -> (r: HAlign)
        ensures
            r == halign_named(s@),
    {
        proof {
            reveal_strlit("left");
            reveal_strlit("right");
            reveal_strlit("center");
            assert("left"@.len() == 4 && "right"@.len() == 5 && "center"@.len() == 6);
        }
        if text_is(s, "left") {
            HAlign::Left
        } else if text_is(s, "right") {
            HAlign::Right
        } else if text_is(s, "center") {
            HAlign::Center
        } else {
            HAlign::Left
        }
    }
}

/// Vertical alignment of a text.
#[derive(Debug, Clone, Copy, PartialEq, Eq)]
pub enum VAlign {
    Top,
    Middle,
    Bottom,
}

impl Default for VAlign {
    fn default() -> (r: VAlign)
        ensures
            r == VAlign::Bottom,
    {
        VAlign::Bottom
    }
}

/// The alignment that a name gives: "bottom", "top" and "middle" give their
/// own, anything else the default.
pub open spec fn valign_named(s: Seq<char>) -> VAlign {
    if s == "top"@ {
        VAlign::Top
    } else if s == "middle"@ {
        VAlign::Middle
    } else {
        VAlign::Bottom
    }
}

impl VAlign {
    /// Reads an alignment from its name; unknown names give `Bottom`.
    pub fn from_name(s: &str) -> (r: VAlign)
        ensures
            r == valign_named(s@),
    {
        proof {
            reveal_strlit("bottom");
            reveal_strlit("top");
            reveal_strlit("middle");
            assert("bottom"@.len() == 6 && "top"@.len() == 3 && "middle"@.len() == 6);
            assert("bottom"@[0] != "middle"@[0]);
        }
        if text_is(s, "bottom") {
            VAlign::Bottom
        } else if text_is(s, "top") {
            VAlign::Top
        } else if text_is(s, "middle") {
            VAlign::Middle
        } else {
            VAlign::Bottom
        }
    }
}

/// Orientation of a drawing item.
#[derive(Debug, Clone, Copy, PartialEq, Eq)]
pub enum Orientation {
    Horizontal,
    Vertical,
}

impl Default for Orientation {
    fn default() -> (r: Orientation)
        ensures
            r == Orientation::Horizontal,
    {
        Orientation::Horizontal
    }
}

/// Whether a drawing item is shown.
#[derive(Debug, Clone, Copy, PartialEq, Eq)]
pub struct Visibility(pub bool);

impl Default for Visibility {
    fn default() -> (r: Visibility)
        ensures
            r == Visibility(true),
    {
        Visibility(true)
    }
}

/// The direction a pin points to.
#[derive(Debug, Clone, Copy, PartialEq, Eq)]
pub enum PinDirection {
    Up,
    Down,
    Right,
    Left,
}

} // verus!
