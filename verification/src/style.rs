//! Alignment, line and painting styles, and links, each named the way scripts name them.

use crate::text::str_eq;
use vstd::prelude::*;

verus! {

/// Horizontal alignment.
#[derive(Clone, Copy, Debug, PartialEq, Eq, Structural)]
pub enum PdfHorizontalAlign {
    Left,
    Middle,
    Right,
}

/// Vertical alignment.
#[derive(Clone, Copy, Debug, PartialEq, Eq, Structural)]
pub enum PdfVerticalAlign {
    Top,
    Middle,
    Bottom,
}

/// Horizontal and vertical alignment.
#[derive(Clone, Copy, Debug, PartialEq, Eq, Structural)]
pub struct PdfAlign {
    pub h: PdfHorizontalAlign,
    pub v: PdfVerticalAlign,
}

/// Cap style to use with the line.
#[derive(Clone, Copy, Debug, PartialEq, Eq, Structural)]
pub enum PdfLineCapStyle {
    Butt,
    Round,
    ProjectingSquare,
}

/// Join style to use with the line.
#[derive(Clone, Copy, Debug, PartialEq, Eq, Structural)]
pub enum PdfLineJoinStyle {
    Limit,
    Miter,
    Round,
}

/// Paint mode to use with shapes.
#[derive(Clone, Copy, Debug, PartialEq, Eq, Structural)]
pub enum PdfPaintMode {
    Clip,
    Fill,
    FillStroke,
    Stroke,
}

/// Winding order to use with shapes.
#[derive(Clone, Copy, Debug, PartialEq, Eq, Structural)]
pub enum PdfWindingOrder {
    EvenOdd,
    NonZero,
}

/// Represents an action to take as a link.
#[derive(Clone, Debug)]
pub enum PdfLink {
    /// Link should go to an internal page denoted by the page's id.
    GoTo { page: u32 },
    /// Link should go to an external URI.
    Uri { uri: String },
}

impl Default for PdfHorizontalAlign {
    fn default() -> (r: Self)
        ensures
            r == PdfHorizontalAlign::Middle,
    {
        PdfHorizontalAlign::Middle
    }
}

impl Default for PdfVerticalAlign {
    fn default() -> (r: Self)
        ensures
            r == PdfVerticalAlign::Middle,
    {
        PdfVerticalAlign::Middle
    }
}

impl Default for PdfAlign {
    fn default() -> (r: Self)
        ensures
            r.h == PdfHorizontalAlign::Middle && r.v == PdfVerticalAlign::Middle,
    {
        PdfAlign { h: PdfHorizontalAlign::Middle, v: PdfVerticalAlign::Middle }
    }
}

impl Default for PdfPaintMode {
    fn default() -> (r: Self)
        ensures
            r == PdfPaintMode::Fill,
    {
        PdfPaintMode::Fill
    }
}

impl Default for PdfWindingOrder {
    fn default() -> (r: Self)
        ensures
            r == PdfWindingOrder::NonZero,
    {
        PdfWindingOrder::NonZero
    }
}

impl PdfAlign {
    /// Convert to (horizontal, vertical) tuple.
    pub fn to_h_v(self) -> (r: (PdfHorizontalAlign, PdfVerticalAlign))
        ensures
            r == (self.h, self.v),
    {
        (self.h, self.v)
    }

    /// Convert to (vertical, horizontal) tuple.
    pub fn to_v_h(self) -> (r: (PdfVerticalAlign, PdfHorizontalAlign))
        ensures
            r == (self.v, self.h),
    {
        (self.v, self.h)
    }
}

impl PdfHorizontalAlign {
    /// Name by which scripts refer to the alignment.
    pub open spec fn name_spec(self) -> Seq<char> {
        match self {
            PdfHorizontalAlign::Left => "left"@,
            PdfHorizontalAlign::Middle => "middle"@,
            PdfHorizontalAlign::Right => "right"@,
        }
    }

    /// Returns the name by which scripts refer to the alignment.
    pub fn name(self) -> (r: &'static str)
        ensures
            r@ == self.name_spec(),
    {
        match self {
            PdfHorizontalAlign::Left => "left",
            PdfHorizontalAlign::Middle => "middle",
            PdfHorizontalAlign::Right => "right",
        }
    }

    /// Reads an alignment from its name.
    pub fn from_name(s: &str) -> (r: Option<Self>)
        ensures
            r matches Some(a) ==> s@ == a.name_spec(),
            r is None ==> forall|a: Self| s@ != a.name_spec(),
    {
        if str_eq(s, "left") {
            Some(PdfHorizontalAlign::Left)
        } else if str_eq(s, "middle") {
            Some(PdfHorizontalAlign::Middle)
        } else if str_eq(s, "right") {
            Some(PdfHorizontalAlign::Right)
        } else {
            assert forall|a: Self| s@ != a.name_spec() by {
                match a {
                    PdfHorizontalAlign::Left => {},
                    PdfHorizontalAlign::Middle => {},
                    PdfHorizontalAlign::Right => {},
                }
            }
            None
        }
    }
}

impl PdfVerticalAlign {
    /// Name by which scripts refer to the alignment.
    pub open spec fn name_spec(self) -> Seq<char> {
        match self {
            PdfVerticalAlign::Top => "top"@,
            PdfVerticalAlign::Middle => "middle"@,
            PdfVerticalAlign::Bottom => "bottom"@,
        }
    }

    /// Returns the name by which scripts refer to the alignment.
    pub fn name(self) -> (r: &'static str)
        ensures
            r@ == self.name_spec(),
    {
        match self {
            PdfVerticalAlign::Top => "top",
            PdfVerticalAlign::Middle => "middle",
            PdfVerticalAlign::Bottom => "bottom",
        }
    }

    /// Reads an alignment from its name.
    pub fn from_name(s: &str) -> (r: Option<Self>)
        ensures
            r matches Some(a) ==> s@ == a.name_spec(),
            r is None ==> forall|a: Self| s@ != a.name_spec(),
    {
        if str_eq(s, "top") {
            Some(PdfVerticalAlign::Top)
        } else if str_eq(s, "middle") {
            Some(PdfVerticalAlign::Middle)
        } else if str_eq(s, "bottom") {
            Some(PdfVerticalAlign::Bottom)
        } else {
            assert forall|a: Self| s@ != a.name_spec() by {
                match a {
                    PdfVerticalAlign::Top => {},
                    PdfVerticalAlign::Middle => {},
                    PdfVerticalAlign::Bottom => {},
                }
            }
            None
        }
    }
}

impl PdfLineCapStyle {
    pub fn butt() -> (r: Self)
        ensures
            r == PdfLineCapStyle::Butt,
    {
        PdfLineCapStyle::Butt
    }

    pub fn round() -> (r: Self)
        ensures
            r == PdfLineCapStyle::Round,
    {
        PdfLineCapStyle::Round
    }

    pub fn projecting_square() -> (r: Self)
        ensures
            r == PdfLineCapStyle::ProjectingSquare,
    {
        PdfLineCapStyle::ProjectingSquare
    }

    /// Name by which scripts refer to the cap style.
    pub open spec fn name_spec(self) -> Seq<char> {
        match self {
            PdfLineCapStyle::Butt => "butt"@,
            PdfLineCapStyle::Round => "round"@,
            PdfLineCapStyle::ProjectingSquare => "projecting_square"@,
        }
    }

    /// Returns the name by which scripts refer to the cap style.
    pub fn name(self) -> (r: &'static str)
        ensures
            r@ == self.name_spec(),
    {
        match self {
            PdfLineCapStyle::Butt => "butt",
            PdfLineCapStyle::Round => "round",
            PdfLineCapStyle::ProjectingSquare => "projecting_square",
        }
    }

    /// Reads a cap style from its name.
    pub fn from_name(s: &str) -> (r: Option<Self>)
        ensures
            r matches Some(a) ==> s@ == a.name_spec(),
            r is None ==> forall|a: Self| s@ != a.name_spec(),
    {
        if str_eq(s, "butt") {
            Some(PdfLineCapStyle::Butt)
        } else if str_eq(s, "round") {
            Some(PdfLineCapStyle::Round)
        } else if str_eq(s, "projecting_square") {
            Some(PdfLineCapStyle::ProjectingSquare)
        } else {
            assert forall|a: Self| s@ != a.name_spec() by {
                match a {
                    PdfLineCapStyle::Butt => {},
                    PdfLineCapStyle::Round => {},
                    PdfLineCapStyle::ProjectingSquare => {},
                }
            }
            None
        }
    }
}

impl PdfLineJoinStyle {
    pub fn limit() -> (r: Self)
        ensures
            r == PdfLineJoinStyle::Limit,
    {
        PdfLineJoinStyle::Limit
    }

    pub fn miter() -> (r: Self)
        ensures
            r == PdfLineJoinStyle::Miter,
    {
        PdfLineJoinStyle::Miter
    }

    pub fn round() -> (r: Self)
        ensures
            r == PdfLineJoinStyle::Round,
    {
        PdfLineJoinStyle::Round
    }

    /// Name by which scripts refer to the join style.
    pub open spec fn name_spec(self) -> Seq<char> {
        match self {
            PdfLineJoinStyle::Limit => "limit"@,
            PdfLineJoinStyle::Miter => "miter"@,
            PdfLineJoinStyle::Round => "round"@,
        }
    }

    /// Returns the name by which scripts refer to the join style.
    pub fn name(self) -> (r: &'static str)
        ensures
            r@ == self.name_spec(),
    {
        match self {
            PdfLineJoinStyle::Limit => "limit",
            PdfLineJoinStyle::Miter => "miter",
            PdfLineJoinStyle::Round => "round",
        }
    }

    /// Reads a join style from its name.
    pub fn from_name(s: &str) -> (r: Option<Self>)
        ensures
            r matches Some(a) ==> s@ == a.name_spec(),
            r is None ==> forall|a: Self| s@ != a.name_spec(),
    {
        if str_eq(s, "limit") {
            Some(PdfLineJoinStyle::Limit)
        } else if str_eq(s, "miter") {
            Some(PdfLineJoinStyle::Miter)
        } else if str_eq(s, "round") {
            Some(PdfLineJoinStyle::Round)
        } else {
            assert forall|a: Self| s@ != a.name_spec() by {
                match a {
                    PdfLineJoinStyle::Limit => {},
                    PdfLineJoinStyle::Miter => {},
                    PdfLineJoinStyle::Round => {},
                }
            }
            None
        }
    }
}

impl PdfPaintMode {
    pub fn clip() -> (r: Self)
        ensures
            r == PdfPaintMode::Clip,
    {
        PdfPaintMode::Clip
    }

    pub fn fill() -> (r: Self)
        ensures
            r == PdfPaintMode::Fill,
    {
        PdfPaintMode::Fill
    }

    pub fn fill_stroke() -> (r: Self)
        ensures
            r == PdfPaintMode::FillStroke,
    {
        PdfPaintMode::FillStroke
    }

    pub fn stroke() -> (r: Self)
        ensures
            r == PdfPaintMode::Stroke,
    {
        PdfPaintMode::Stroke
    }

    /// Name by which scripts refer to the paint mode.
    pub open spec fn name_spec(self) -> Seq<char> {
        match self {
            PdfPaintMode::Clip => "clip"@,
            PdfPaintMode::Fill => "fill"@,
            PdfPaintMode::FillStroke => "fill_stroke"@,
            PdfPaintMode::Stroke => "stroke"@,
        }
    }

    /// Returns the name by which scripts refer to the paint mode.
    pub fn name(self) -> (r: &'static str)
        ensures
            r@ == self.name_spec(),
    {
        match self {
            PdfPaintMode::Clip => "clip",
            PdfPaintMode::Fill => "fill",
            PdfPaintMode::FillStroke => "fill_stroke",
            PdfPaintMode::Stroke => "stroke",
        }
    }

    /// Reads a paint mode from its name.
    pub fn from_name(s: &str) -> (r: Option<Self>)
        ensures
            r matches Some(a) ==> s@ == a.name_spec(),
            r is None ==> forall|a: Self| s@ != a.name_spec(),
    {
        if str_eq(s, "clip") {
            Some(PdfPaintMode::Clip)
        } else if str_eq(s, "fill") {
            Some(PdfPaintMode::Fill)
        } else if str_eq(s, "fill_stroke") {
            Some(PdfPaintMode::FillStroke)
        } else if str_eq(s, "stroke") {
            Some(PdfPaintMode::Stroke)
        } else {
            assert forall|a: Self| s@ != a.name_spec() by {
                match a {
                    PdfPaintMode::Clip => {},
                    PdfPaintMode::Fill => {},
                    PdfPaintMode::FillStroke => {},
                    PdfPaintMode::Stroke => {},
                }
            }
            None
        }
    }
}

impl PdfWindingOrder {
    /// Name by which scripts refer to the winding order.
    pub open spec fn name_spec(self) -> Seq<char> {
        match self {
            PdfWindingOrder::EvenOdd => "even_odd"@,
            PdfWindingOrder::NonZero => "non_zero"@,
        }
    }

    /// Returns the name by which scripts refer to the winding order.
    pub fn name(self) -> (r: &'static str)
        ensures
            r@ == self.name_spec(),
    {
        match self {
            PdfWindingOrder::EvenOdd => "even_odd",
            PdfWindingOrder::NonZero => "non_zero",
        }
    }

    /// Reads a winding order from its name.
    pub fn from_name(s: &str) -> (r: Option<Self>)
        ensures
            r matches Some(a) ==> s@ == a.name_spec(),
            r is None ==> forall|a: Self| s@ != a.name_spec(),
    {
        if str_eq(s, "even_odd") {
            Some(PdfWindingOrder::EvenOdd)
        } else if str_eq(s, "non_zero") {
            Some(PdfWindingOrder::NonZero)
        } else {
            assert forall|a: Self| s@ != a.name_spec() by {
                match a {
                    PdfWindingOrder::EvenOdd => {},
                    PdfWindingOrder::NonZero => {},
                }
            }
            None
        }
    }
}

/// Kind of a link, as scripts give it in a link table's `type` field.
#[derive(Clone, Copy, Debug, PartialEq, Eq, Structural)]
pub enum PdfLinkKind {
    /// A link to a page of the document.
    GoTo,
    /// A link to an external URI.
    Uri,
}

impl PdfLinkKind {
    /// Name of the kind of link.
    pub open spec fn name_spec(self) -> Seq<char> {
        match self {
            PdfLinkKind::GoTo => "goto"@,
            PdfLinkKind::Uri => "uri"@,
        }
    }

    /// Reads a kind of link from its name; none for an unknown type.
    pub fn from_name(s: &str) -> (r: Option<Self>)
        ensures
            r matches Some(k) ==> s@ == k.name_spec(),
            r is None ==> forall|k: Self| s@ != k.name_spec(),
    {
        if str_eq(s, "goto") {
            Some(PdfLinkKind::GoTo)
        } else if str_eq(s, "uri") {
            Some(PdfLinkKind::Uri)
        } else {
            assert forall|k: Self| s@ != k.name_spec() by {
                match k {
                    PdfLinkKind::GoTo => {},
                    PdfLinkKind::Uri => {},
                }
            }
            None
        }
    }
}

impl PdfLink {
    /// Kind of the link.
    pub open spec fn kind_spec(&self) -> PdfLinkKind {
        match self {
            PdfLink::GoTo { .. } => PdfLinkKind::GoTo,
            PdfLink::Uri { .. } => PdfLinkKind::Uri,
        }
    }

    /// Name of the kind of link.
    pub open spec fn kind_name_spec(&self) -> Seq<char> {
        self.kind_spec().name_spec()
    }

    /// Returns a static str representing the type name of the action.
    pub fn kind_name(&self) -> (r: &'static str)
        ensures
            r@ == self.kind_name_spec(),
    {
        match self {
            PdfLink::GoTo { .. } => "goto",
            PdfLink::Uri { .. } => "uri",
        }
    }
}

/// Each name is read back as the style it names, and no two styles of a kind share a name.
pub proof fn law_style_names_roundtrip()
    ensures
        forall|a: PdfHorizontalAlign, b: PdfHorizontalAlign| a.name_spec() == b.name_spec() ==> a == b,
        forall|a: PdfVerticalAlign, b: PdfVerticalAlign| a.name_spec() == b.name_spec() ==> a == b,
        forall|a: PdfLineCapStyle, b: PdfLineCapStyle| a.name_spec() == b.name_spec() ==> a == b,
        forall|a: PdfLineJoinStyle, b: PdfLineJoinStyle| a.name_spec() == b.name_spec() ==> a == b,
        forall|a: PdfPaintMode, b: PdfPaintMode| a.name_spec() == b.name_spec() ==> a == b,
        forall|a: PdfWindingOrder, b: PdfWindingOrder| a.name_spec() == b.name_spec() ==> a == b,
        forall|a: PdfLinkKind, b: PdfLinkKind| a.name_spec() == b.name_spec() ==> a == b,
{
    reveal_strlit("goto");
    reveal_strlit("uri");
    reveal_strlit("left");
    reveal_strlit("middle");
    reveal_strlit("right");
    reveal_strlit("top");
    reveal_strlit("bottom");
    reveal_strlit("butt");
    reveal_strlit("round");
    reveal_strlit("projecting_square");
    reveal_strlit("limit");
    reveal_strlit("miter");
    reveal_strlit("clip");
    reveal_strlit("fill");
    reveal_strlit("fill_stroke");
    reveal_strlit("stroke");
    reveal_strlit("even_odd");
    reveal_strlit("non_zero");
    assert forall|a: PdfLinkKind, b: PdfLinkKind| a.name_spec() == b.name_spec() implies a == b by {
        if a != b {
            assert(a.name_spec().len() != b.name_spec().len());
        }
    }
    assert forall|a: PdfHorizontalAlign, b: PdfHorizontalAlign| a.name_spec() == b.name_spec() implies a == b by {
        if a != b {
            assert(a.name_spec().len() != b.name_spec().len() || a.name_spec()[0] != b.name_spec()[0]);
        }
    }
    assert forall|a: PdfVerticalAlign, b: PdfVerticalAlign| a.name_spec() == b.name_spec() implies a == b by {
        if a != b {
            assert(a.name_spec()[0] != b.name_spec()[0]);
        }
    }
    assert forall|a: PdfLineCapStyle, b: PdfLineCapStyle| a.name_spec() == b.name_spec() implies a == b by {
        if a != b {
            assert(a.name_spec()[0] != b.name_spec()[0]);
        }
    }
    assert forall|a: PdfLineJoinStyle, b: PdfLineJoinStyle| a.name_spec() == b.name_spec() implies a == b by {
        if a != b {
            assert(a.name_spec()[0] != b.name_spec()[0] || a.name_spec()[1] != b.name_spec()[1]);
        }
    }
    assert forall|a: PdfPaintMode, b: PdfPaintMode| a.name_spec() == b.name_spec() implies a == b by {
        if a != b {
            assert(a.name_spec().len() != b.name_spec().len() || a.name_spec()[0] != b.name_spec()[0]);
        }
    }
    assert forall|a: PdfWindingOrder, b: PdfWindingOrder| a.name_spec() == b.name_spec() implies a == b by {
        if a != b {
            assert(a.name_spec()[0] != b.name_spec()[0]);
        }
    }
}


/// Scripts name the horizontal alignments `left`, `middle`, `right`, each name naming its own style only.
pub proof fn law_horizontal_align_names()
    ensures
        forall|k: PdfHorizontalAlign| (#[trigger] k.name_spec() == "left"@) <==> k == PdfHorizontalAlign::Left,
        forall|k: PdfHorizontalAlign| (#[trigger] k.name_spec() == "middle"@) <==> k == PdfHorizontalAlign::Middle,
        forall|k: PdfHorizontalAlign| (#[trigger] k.name_spec() == "right"@) <==> k == PdfHorizontalAlign::Right,
{
    reveal_strlit("left");
    reveal_strlit("middle");
    reveal_strlit("right");
    assert forall|k: PdfHorizontalAlign| (#[trigger] k.name_spec() == "left"@) <==> k == PdfHorizontalAlign::Left by {
        match k {
            PdfHorizontalAlign::Left => {},
            PdfHorizontalAlign::Middle => { assert("middle"@.len() != "left"@.len()); },
            PdfHorizontalAlign::Right => { assert("right"@.len() != "left"@.len()); },
        }
    }
    assert forall|k: PdfHorizontalAlign| (#[trigger] k.name_spec() == "middle"@) <==> k == PdfHorizontalAlign::Middle by {
        match k {
            PdfHorizontalAlign::Left => { assert("left"@.len() != "middle"@.len()); },
            PdfHorizontalAlign::Middle => {},
            PdfHorizontalAlign::Right => { assert("right"@.len() != "middle"@.len()); },
        }
    }
    assert forall|k: PdfHorizontalAlign| (#[trigger] k.name_spec() == "right"@) <==> k == PdfHorizontalAlign::Right by {
        match k {
            PdfHorizontalAlign::Left => { assert("left"@.len() != "right"@.len()); },
            PdfHorizontalAlign::Middle => { assert("middle"@.len() != "right"@.len()); },
            PdfHorizontalAlign::Right => {},
        }
    }
}


/// Scripts name the vertical alignments `top`, `middle`, `bottom`, each name naming its own style only.
pub proof fn law_vertical_align_names()
    ensures
        forall|k: PdfVerticalAlign| (#[trigger] k.name_spec() == "top"@) <==> k == PdfVerticalAlign::Top,
        forall|k: PdfVerticalAlign| (#[trigger] k.name_spec() == "middle"@) <==> k == PdfVerticalAlign::Middle,
        forall|k: PdfVerticalAlign| (#[trigger] k.name_spec() == "bottom"@) <==> k == PdfVerticalAlign::Bottom,
{
    reveal_strlit("top");
    reveal_strlit("middle");
    reveal_strlit("bottom");
    assert forall|k: PdfVerticalAlign| (#[trigger] k.name_spec() == "top"@) <==> k == PdfVerticalAlign::Top by {
        match k {
            PdfVerticalAlign::Top => {},
            PdfVerticalAlign::Middle => { assert("middle"@.len() != "top"@.len()); },
            PdfVerticalAlign::Bottom => { assert("bottom"@.len() != "top"@.len()); },
        }
    }
    assert forall|k: PdfVerticalAlign| (#[trigger] k.name_spec() == "middle"@) <==> k == PdfVerticalAlign::Middle by {
        match k {
            PdfVerticalAlign::Top => { assert("top"@.len() != "middle"@.len()); },
            PdfVerticalAlign::Middle => {},
            PdfVerticalAlign::Bottom => { assert("bottom"@[0] != "middle"@[0]); },
        }
    }
    assert forall|k: PdfVerticalAlign| (#[trigger] k.name_spec() == "bottom"@) <==> k == PdfVerticalAlign::Bottom by {
        match k {
            PdfVerticalAlign::Top => { assert("top"@.len() != "bottom"@.len()); },
            PdfVerticalAlign::Middle => { assert("middle"@[0] != "bottom"@[0]); },
            PdfVerticalAlign::Bottom => {},
        }
    }
}


/// Scripts name the line cap styles `butt`, `round`, `projecting_square`, each name naming its own style only.
pub proof fn law_line_cap_names()
    ensures
        forall|k: PdfLineCapStyle| (#[trigger] k.name_spec() == "butt"@) <==> k == PdfLineCapStyle::Butt,
        forall|k: PdfLineCapStyle| (#[trigger] k.name_spec() == "round"@) <==> k == PdfLineCapStyle::Round,
        forall|k: PdfLineCapStyle| (#[trigger] k.name_spec() == "projecting_square"@) <==> k == PdfLineCapStyle::ProjectingSquare,
{
    reveal_strlit("butt");
    reveal_strlit("round");
    reveal_strlit("projecting_square");
    assert forall|k: PdfLineCapStyle| (#[trigger] k.name_spec() == "butt"@) <==> k == PdfLineCapStyle::Butt by {
        match k {
            PdfLineCapStyle::Butt => {},
            PdfLineCapStyle::Round => { assert("round"@.len() != "butt"@.len()); },
            PdfLineCapStyle::ProjectingSquare => { assert("projecting_square"@.len() != "butt"@.len()); },
        }
    }
    assert forall|k: PdfLineCapStyle| (#[trigger] k.name_spec() == "round"@) <==> k == PdfLineCapStyle::Round by {
        match k {
            PdfLineCapStyle::Butt => { assert("butt"@.len() != "round"@.len()); },
            PdfLineCapStyle::Round => {},
            PdfLineCapStyle::ProjectingSquare => { assert("projecting_square"@.len() != "round"@.len()); },
        }
    }
    assert forall|k: PdfLineCapStyle| (#[trigger] k.name_spec() == "projecting_square"@) <==> k == PdfLineCapStyle::ProjectingSquare by {
        match k {
            PdfLineCapStyle::Butt => { assert("butt"@.len() != "projecting_square"@.len()); },
            PdfLineCapStyle::Round => { assert("round"@.len() != "projecting_square"@.len()); },
            PdfLineCapStyle::ProjectingSquare => {},
        }
    }
}


/// Scripts name the line join styles `limit`, `miter`, `round`, each name naming its own style only.
pub proof fn law_line_join_names()
    ensures
        forall|k: PdfLineJoinStyle| (#[trigger] k.name_spec() == "limit"@) <==> k == PdfLineJoinStyle::Limit,
        forall|k: PdfLineJoinStyle| (#[trigger] k.name_spec() == "miter"@) <==> k == PdfLineJoinStyle::Miter,
        forall|k: PdfLineJoinStyle| (#[trigger] k.name_spec() == "round"@) <==> k == PdfLineJoinStyle::Round,
{
    reveal_strlit("limit");
    reveal_strlit("miter");
    reveal_strlit("round");
    assert forall|k: PdfLineJoinStyle| (#[trigger] k.name_spec() == "limit"@) <==> k == PdfLineJoinStyle::Limit by {
        match k {
            PdfLineJoinStyle::Limit => {},
            PdfLineJoinStyle::Miter => { assert("miter"@[0] != "limit"@[0]); },
            PdfLineJoinStyle::Round => { assert("round"@[0] != "limit"@[0]); },
        }
    }
    assert forall|k: PdfLineJoinStyle| (#[trigger] k.name_spec() == "miter"@) <==> k == PdfLineJoinStyle::Miter by {
        match k {
            PdfLineJoinStyle::Limit => { assert("limit"@[0] != "miter"@[0]); },
            PdfLineJoinStyle::Miter => {},
            PdfLineJoinStyle::Round => { assert("round"@[0] != "miter"@[0]); },
        }
    }
    assert forall|k: PdfLineJoinStyle| (#[trigger] k.name_spec() == "round"@) <==> k == PdfLineJoinStyle::Round by {
        match k {
            PdfLineJoinStyle::Limit => { assert("limit"@[0] != "round"@[0]); },
            PdfLineJoinStyle::Miter => { assert("miter"@[0] != "round"@[0]); },
            PdfLineJoinStyle::Round => {},
        }
    }
}


/// Scripts name the paint modes `clip`, `fill`, `fill_stroke`, `stroke`, each name naming its own style only.
pub proof fn law_paint_mode_names()
    ensures
        forall|k: PdfPaintMode| (#[trigger] k.name_spec() == "clip"@) <==> k == PdfPaintMode::Clip,
        forall|k: PdfPaintMode| (#[trigger] k.name_spec() == "fill"@) <==> k == PdfPaintMode::Fill,
        forall|k: PdfPaintMode| (#[trigger] k.name_spec() == "fill_stroke"@) <==> k == PdfPaintMode::FillStroke,
        forall|k: PdfPaintMode| (#[trigger] k.name_spec() == "stroke"@) <==> k == PdfPaintMode::Stroke,
{
    reveal_strlit("clip");
    reveal_strlit("fill");
    reveal_strlit("fill_stroke");
    reveal_strlit("stroke");
    assert forall|k: PdfPaintMode| (#[trigger] k.name_spec() == "clip"@) <==> k == PdfPaintMode::Clip by {
        match k {
            PdfPaintMode::Clip => {},
            PdfPaintMode::Fill => { assert("fill"@[0] != "clip"@[0]); },
            PdfPaintMode::FillStroke => { assert("fill_stroke"@.len() != "clip"@.len()); },
            PdfPaintMode::Stroke => { assert("stroke"@.len() != "clip"@.len()); },
        }
    }
    assert forall|k: PdfPaintMode| (#[trigger] k.name_spec() == "fill"@) <==> k == PdfPaintMode::Fill by {
        match k {
            PdfPaintMode::Clip => { assert("clip"@[0] != "fill"@[0]); },
            PdfPaintMode::Fill => {},
            PdfPaintMode::FillStroke => { assert("fill_stroke"@.len() != "fill"@.len()); },
            PdfPaintMode::Stroke => { assert("stroke"@.len() != "fill"@.len()); },
        }
    }
    assert forall|k: PdfPaintMode| (#[trigger] k.name_spec() == "fill_stroke"@) <==> k == PdfPaintMode::FillStroke by {
        match k {
            PdfPaintMode::Clip => { assert("clip"@.len() != "fill_stroke"@.len()); },
            PdfPaintMode::Fill => { assert("fill"@.len() != "fill_stroke"@.len()); },
            PdfPaintMode::FillStroke => {},
            PdfPaintMode::Stroke => { assert("stroke"@.len() != "fill_stroke"@.len()); },
        }
    }
    assert forall|k: PdfPaintMode| (#[trigger] k.name_spec() == "stroke"@) <==> k == PdfPaintMode::Stroke by {
        match k {
            PdfPaintMode::Clip => { assert("clip"@.len() != "stroke"@.len()); },
            PdfPaintMode::Fill => { assert("fill"@.len() != "stroke"@.len()); },
            PdfPaintMode::FillStroke => { assert("fill_stroke"@.len() != "stroke"@.len()); },
            PdfPaintMode::Stroke => {},
        }
    }
}


/// Scripts name the winding orders `even_odd`, `non_zero`, each name naming its own style only.
pub proof fn law_winding_order_names()
    ensures
        forall|k: PdfWindingOrder| (#[trigger] k.name_spec() == "even_odd"@) <==> k == PdfWindingOrder::EvenOdd,
        forall|k: PdfWindingOrder| (#[trigger] k.name_spec() == "non_zero"@) <==> k == PdfWindingOrder::NonZero,
{
    reveal_strlit("even_odd");
    reveal_strlit("non_zero");
    assert forall|k: PdfWindingOrder| (#[trigger] k.name_spec() == "even_odd"@) <==> k == PdfWindingOrder::EvenOdd by {
        match k {
            PdfWindingOrder::EvenOdd => {},
            PdfWindingOrder::NonZero => { assert("non_zero"@[0] != "even_odd"@[0]); },
        }
    }
    assert forall|k: PdfWindingOrder| (#[trigger] k.name_spec() == "non_zero"@) <==> k == PdfWindingOrder::NonZero by {
        match k {
            PdfWindingOrder::EvenOdd => { assert("even_odd"@[0] != "non_zero"@[0]); },
            PdfWindingOrder::NonZero => {},
        }
    }
}


/// Scripts name the kinds of link `goto`, `uri`, each name naming its own style only.
pub proof fn law_link_kind_names()
    ensures
        forall|k: PdfLinkKind| (#[trigger] k.name_spec() == "goto"@) <==> k == PdfLinkKind::GoTo,
        forall|k: PdfLinkKind| (#[trigger] k.name_spec() == "uri"@) <==> k == PdfLinkKind::Uri,
{
    reveal_strlit("goto");
    reveal_strlit("uri");
    assert forall|k: PdfLinkKind| (#[trigger] k.name_spec() == "goto"@) <==> k == PdfLinkKind::GoTo by {
        match k {
            PdfLinkKind::GoTo => {},
            PdfLinkKind::Uri => { assert("uri"@.len() != "goto"@.len()); },
        }
    }
    assert forall|k: PdfLinkKind| (#[trigger] k.name_spec() == "uri"@) <==> k == PdfLinkKind::Uri by {
        match k {
            PdfLinkKind::GoTo => { assert("goto"@.len() != "uri"@.len()); },
            PdfLinkKind::Uri => {},
        }
    }
}

} // verus!
