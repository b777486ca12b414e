//! The types of objects that scripts queue on a page, named the way scripts name them.

use crate::text::str_eq;
use vstd::prelude::*;

verus! {

/// Type of an object that a script queues on a page.
#[derive(Clone, Copy, Debug, PartialEq, Eq, Structural)]
pub enum PdfObjectType {
    Circle,
    Group,
    Line,
    Rect,
    Shape,
    Text,
}

impl PdfObjectType {
    /// Name by which scripts give the type, in an object's `type` field.
    pub open spec fn type_str_spec(self) -> Seq<char> {
        match self {
            PdfObjectType::Circle => "circle"@,
            PdfObjectType::Group => "group"@,
            PdfObjectType::Line => "line"@,
            PdfObjectType::Rect => "rect"@,
            PdfObjectType::Shape => "shape"@,
            PdfObjectType::Text => "text"@,
        }
    }

    /// Returns the name by which scripts give the type.
    pub fn to_type_str(self) -> (r: &'static str)
        ensures
            r@ == self.type_str_spec(),
    {
        match self {
            PdfObjectType::Circle => "circle",
            PdfObjectType::Group => "group",
            PdfObjectType::Line => "line",
            PdfObjectType::Rect => "rect",
            PdfObjectType::Shape => "shape",
            PdfObjectType::Text => "text",
        }
    }

    /// Reads an object type from an object's `type` field; none for an unknown type.
    pub fn from_type_str(s: &str) -> (r: Option<Self>)
        ensures
            r matches Some(t) ==> s@ == t.type_str_spec(),
            r is None ==> forall|t: Self| s@ != t.type_str_spec(),
    {
        if str_eq(s, "circle") {
            Some(PdfObjectType::Circle)
        } else if str_eq(s, "group") {
            Some(PdfObjectType::Group)
        } else if str_eq(s, "line") {
            Some(PdfObjectType::Line)
        } else if str_eq(s, "rect") {
            Some(PdfObjectType::Rect)
        } else if str_eq(s, "shape") {
            Some(PdfObjectType::Shape)
        } else if str_eq(s, "text") {
            Some(PdfObjectType::Text)
        } else {
            assert forall|t: Self| s@ != t.type_str_spec() by {
                match t {
                    PdfObjectType::Circle => {},
                    PdfObjectType::Group => {},
                    PdfObjectType::Line => {},
                    PdfObjectType::Rect => {},
                    PdfObjectType::Shape => {},
                    PdfObjectType::Text => {},
                }
            }
            None
        }
    }
}

/// Each type is read back from its name, and no two types share a name.
pub proof fn law_object_type_names_roundtrip()
    ensures
        forall|a: PdfObjectType, b: PdfObjectType| a.type_str_spec() == b.type_str_spec() ==> a == b,
{
    reveal_strlit("circle");
    reveal_strlit("group");
    reveal_strlit("line");
    reveal_strlit("rect");
    reveal_strlit("shape");
    reveal_strlit("text");
    assert forall|a: PdfObjectType, b: PdfObjectType| a.type_str_spec() == b.type_str_spec() implies a == b by {
        if a != b {
            assert(a.type_str_spec()[0] != b.type_str_spec()[0] || a.type_str_spec().len() != b.type_str_spec().len()
                || a.type_str_spec()[1] != b.type_str_spec()[1]);
        }
    }
}


/// Scripts give object types by their English names, each naming its own type only:
/// `circle`, `group`, `line`, `rect`, `shape` and `text`.
pub proof fn law_object_type_names()
    ensures
        forall|k: PdfObjectType| (#[trigger] k.type_str_spec() == "circle"@) <==> k == PdfObjectType::Circle,
        forall|k: PdfObjectType| (#[trigger] k.type_str_spec() == "group"@) <==> k == PdfObjectType::Group,
        forall|k: PdfObjectType| (#[trigger] k.type_str_spec() == "line"@) <==> k == PdfObjectType::Line,
        forall|k: PdfObjectType| (#[trigger] k.type_str_spec() == "rect"@) <==> k == PdfObjectType::Rect,
        forall|k: PdfObjectType| (#[trigger] k.type_str_spec() == "shape"@) <==> k == PdfObjectType::Shape,
        forall|k: PdfObjectType| (#[trigger] k.type_str_spec() == "text"@) <==> k == PdfObjectType::Text,
{
    reveal_strlit("circle");
    reveal_strlit("group");
    reveal_strlit("line");
    reveal_strlit("rect");
    reveal_strlit("shape");
    reveal_strlit("text");
    assert forall|k: PdfObjectType| (#[trigger] k.type_str_spec() == "circle"@) <==> k == PdfObjectType::Circle by {
        match k {
            PdfObjectType::Circle => {},
            PdfObjectType::Group => { assert("group"@.len() != "circle"@.len()); },
            PdfObjectType::Line => { assert("line"@.len() != "circle"@.len()); },
            PdfObjectType::Rect => { assert("rect"@.len() != "circle"@.len()); },
            PdfObjectType::Shape => { assert("shape"@.len() != "circle"@.len()); },
            PdfObjectType::Text => { assert("text"@.len() != "circle"@.len()); },
        }
    }
    assert forall|k: PdfObjectType| (#[trigger] k.type_str_spec() == "group"@) <==> k == PdfObjectType::Group by {
        match k {
            PdfObjectType::Circle => { assert("circle"@.len() != "group"@.len()); },
            PdfObjectType::Group => {},
            PdfObjectType::Line => { assert("line"@.len() != "group"@.len()); },
            PdfObjectType::Rect => { assert("rect"@.len() != "group"@.len()); },
            PdfObjectType::Shape => { assert("shape"@[0] != "group"@[0]); },
            PdfObjectType::Text => { assert("text"@.len() != "group"@.len()); },
        }
    }
    assert forall|k: PdfObjectType| (#[trigger] k.type_str_spec() == "line"@) <==> k == PdfObjectType::Line by {
        match k {
            PdfObjectType::Circle => { assert("circle"@.len() != "line"@.len()); },
            PdfObjectType::Group => { assert("group"@.len() != "line"@.len()); },
            PdfObjectType::Line => {},
            PdfObjectType::Rect => { assert("rect"@[0] != "line"@[0]); },
            PdfObjectType::Shape => { assert("shape"@.len() != "line"@.len()); },
            PdfObjectType::Text => { assert("text"@[0] != "line"@[0]); },
        }
    }
    assert forall|k: PdfObjectType| (#[trigger] k.type_str_spec() == "rect"@) <==> k == PdfObjectType::Rect by {
        match k {
            PdfObjectType::Circle => { assert("circle"@.len() != "rect"@.len()); },
            PdfObjectType::Group => { assert("group"@.len() != "rect"@.len()); },
            PdfObjectType::Line => { assert("line"@[0] != "rect"@[0]); },
            PdfObjectType::Rect => {},
            PdfObjectType::Shape => { assert("shape"@.len() != "rect"@.len()); },
            PdfObjectType::Text => { assert("text"@[0] != "rect"@[0]); },
        }
    }
    assert forall|k: PdfObjectType| (#[trigger] k.type_str_spec() == "shape"@) <==> k == PdfObjectType::Shape by {
        match k {
            PdfObjectType::Circle => { assert("circle"@.len() != "shape"@.len()); },
            PdfObjectType::Group => { assert("group"@[0] != "shape"@[0]); },
            PdfObjectType::Line => { assert("line"@.len() != "shape"@.len()); },
            PdfObjectType::Rect => { assert("rect"@.len() != "shape"@.len()); },
            PdfObjectType::Shape => {},
            PdfObjectType::Text => { assert("text"@.len() != "shape"@.len()); },
        }
    }
    assert forall|k: PdfObjectType| (#[trigger] k.type_str_spec() == "text"@) <==> k == PdfObjectType::Text by {
        match k {
            PdfObjectType::Circle => { assert("circle"@.len() != "text"@.len()); },
            PdfObjectType::Group => { assert("group"@.len() != "text"@.len()); },
            PdfObjectType::Line => { assert("line"@[0] != "text"@[0]); },
            PdfObjectType::Rect => { assert("rect"@[0] != "text"@[0]); },
            PdfObjectType::Shape => { assert("shape"@.len() != "text"@.len()); },
            PdfObjectType::Text => {},
        }
    }
}

} // verus!
