//! Vertex formats and the names under which passes bind their attributes.
use vstd::prelude::*;

verus! {

/// What an attribute of a vertex holds.
#[derive(Clone, Copy, Debug, PartialEq, Eq)]
pub enum AttributeKind {
    Position,
    Color,
    Normal,
    TextureCoord,
}

/// How an attribute is laid out.
#[derive(Clone, Copy, Debug, PartialEq, Eq)]
pub enum ElementFormat {
    F32x2,
    F32x3,
    F32x4,
}

/// An attribute's place inside a vertex.
#[derive(Clone, Copy, Debug, PartialEq, Eq)]
pub struct Element {
    pub offset: u32,
    pub format: ElementFormat,
}

/// The vertex layouts that meshes come in.
#[derive(Clone, Copy, Debug, PartialEq, Eq)]
pub enum VertexFormat {
    /// Position and RGBA color.
    PosColor,
    /// Position, normal and texture coordinate.
    PosNormTex,
}

/// The attributes of a format, in order.
pub open spec fn format_attributes(f: VertexFormat) -> Seq<(AttributeKind, Element)> {
    match f {
        VertexFormat::PosColor => seq![
            (AttributeKind::Position, Element { offset: 0, format: ElementFormat::F32x3 }),
            (AttributeKind::Color, Element { offset: 12, format: ElementFormat::F32x4 }),
        ],
        VertexFormat::PosNormTex => seq![
            (AttributeKind::Position, Element { offset: 0, format: ElementFormat::F32x3 }),
            (AttributeKind::Normal, Element { offset: 12, format: ElementFormat::F32x4 }),
            (AttributeKind::TextureCoord, Element { offset: 28, format: ElementFormat::F32x2 }),
        ],
    }
}

/// The name under which the drawing passes bind an attribute; the empty name
/// leaves it unbound.
pub open spec fn attribute_name(k: AttributeKind) -> Seq<char> {
    match k {
        AttributeKind::Position => "position"@,
        AttributeKind::Normal => "normal"@,
        AttributeKind::TextureCoord => "tex_coord"@,
        AttributeKind::Color => ""@,
    }
}

/// A vertex attribute together with the name a shader knows it by.
#[derive(Debug)]
pub struct NamedAttribute {
    pub name: String,
    pub element: Element,
}

/// The size of one vertex of a format, in bytes.
pub open spec fn format_size(f: VertexFormat) -> u32 {
    match f {
        VertexFormat::PosColor => 28u32,
        VertexFormat::PosNormTex => 36u32,
    }
}

impl VertexFormat {
    /// The size of one vertex in bytes.
    pub fn size(&self) -> (r: u32)
        ensures
            r == format_size(*self),
    {
        match self {
            VertexFormat::PosColor => 28,
            VertexFormat::PosNormTex => 36,
        }
    }

    fn attributes(&self) -> (r: Vec<(AttributeKind, Element)>)
        ensures
            r@ == format_attributes(*self),
    {
        let mut r = Vec::new();
        r.push((AttributeKind::Position, Element { offset: 0, format: ElementFormat::F32x3 }));
        match self {
            VertexFormat::PosColor => {
                r.push((AttributeKind::Color, Element { offset: 12, format: ElementFormat::F32x4 }));
            },
            VertexFormat::PosNormTex => {
                r.push((AttributeKind::Normal, Element { offset: 12, format: ElementFormat::F32x4 }));
                r.push(
                    (
                        AttributeKind::TextureCoord,
                        Element { offset: 28, format: ElementFormat::F32x2 },
                    ),
                );
            },
        }
        assert(r@ =~= format_attributes(*self));
        r
    }

    /// The attributes of this format, each under the name the drawing passes
    /// bind it by.
    pub fn named_attributes(&self) -> (r: Vec<NamedAttribute>)
        ensures
            r@.len() == format_attributes(*self).len(),
            forall|i: int|
                0 <= i < r@.len() ==> #[trigger] r@[i].name@ == attribute_name(
                    format_attributes(*self)[i].0,
                ) && r@[i].element == format_attributes(*self)[i].1,
    {
        let attrs = self.attributes();
        let mut r: Vec<NamedAttribute> = Vec::new();
        let mut i: usize = 0;
        while i < attrs.len()
            invariant
                attrs@ == format_attributes(*self),
                i <= attrs@.len(),
                r@.len() == i,
                forall|j: int|
                    0 <= j < i ==> #[trigger] r@[j].name@ == attribute_name(attrs@[j].0)
                        && r@[j].element == attrs@[j].1,
            decreases attrs@.len() - i,
        {
            let (kind, element) = attrs[i];
            r.push(NamedAttribute { name: attribute_name_of(kind), element });
            i = i + 1;
        }
        r
    }
}

/// The name under which the drawing passes bind an attribute of kind `k`.
pub fn attribute_name_of(k: AttributeKind) -> (r: String)
    ensures
        r@ == attribute_name(k),
{
    match k {
        AttributeKind::Position => String::from_str("position"),
        AttributeKind::Normal => String::from_str("normal"),
        AttributeKind::TextureCoord => String::from_str("tex_coord"),
        AttributeKind::Color => {
            proof {
                reveal_strlit("");
            }
            String::new()
        },
    }
}

} // verus!
