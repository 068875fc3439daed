//! What a reader expects of a document: where it holds enums, and of which
//! variants.
use vstd::prelude::*;

verus! {

/// What a reader expects at one place of a document.
#[derive(Debug)]
pub enum Shape {
    /// A value that holds no enum: it is taken as it stands.
    Any,
    /// Nothing: a null.
    Unit,
    /// A boolean.
    Bool,
    /// An integer that fits `i64`.
    I64,
    /// An integer that fits `u64`.
    U64,
    /// A float.
    Float,
    /// A string.
    String,
    /// An optional of the given shape.
    Optional(Box<Shape>),
    /// A sequence whose items all have the given shape.
    Sequence(Box<Shape>),
    /// A tuple: one shape for each position.
    Tuple(Vec<Shape>),
    /// A map: the shape of its keys and the shape of its values.
    Mapping(Box<Shape>, Box<Shape>),
    /// A struct: the name and the shape of each field, in order.
    Struct(Vec<(String, Shape)>),
    /// An enum: the name and the payload of each variant.
    Enum(Vec<(String, Payload)>),
}

/// What a variant of an enum carries.
#[derive(Debug)]
pub enum Payload {
    /// Nothing.
    Unit,
    /// One value of the given shape.
    Newtype(Box<Shape>),
    /// A tuple: one shape for each position.
    Tuple(Vec<Shape>),
    /// Named fields: the name and the shape of each, in order.
    Struct(Vec<(String, Shape)>),
}

/// What a [`Shape`] stands for.
pub enum ShapeView {
    Any,
    Unit,
    Bool,
    I64,
    U64,
    Float,
    String,
    Optional(Box<ShapeView>),
    Sequence(Box<ShapeView>),
    Tuple(Seq<ShapeView>),
    Mapping(Box<ShapeView>, Box<ShapeView>),
    Struct(Seq<(Seq<char>, ShapeView)>),
    Enum(Seq<(Seq<char>, PayloadView)>),
}

/// What a [`Payload`] stands for.
pub enum PayloadView {
    Unit,
    Newtype(Box<ShapeView>),
    Tuple(Seq<ShapeView>),
    Struct(Seq<(Seq<char>, ShapeView)>),
}

/// What `shape` stands for.
pub open spec fn shape_view(shape: Shape) -> ShapeView
    decreases shape,
{
    match shape {
        Shape::Any => ShapeView::Any,
        Shape::Unit => ShapeView::Unit,
        Shape::Bool => ShapeView::Bool,
        Shape::I64 => ShapeView::I64,
        Shape::U64 => ShapeView::U64,
        Shape::Float => ShapeView::Float,
        Shape::String => ShapeView::String,
        Shape::Optional(inner) => ShapeView::Optional(Box::new(shape_view(*inner))),
        Shape::Sequence(item) => ShapeView::Sequence(Box::new(shape_view(*item))),
        Shape::Tuple(shapes) => ShapeView::Tuple(shapes_view(shapes@)),
        Shape::Mapping(key, value) => ShapeView::Mapping(
            Box::new(shape_view(*key)),
            Box::new(shape_view(*value)),
        ),
        Shape::Struct(fields) => ShapeView::Struct(field_shapes_view(fields@)),
        Shape::Enum(variants) => ShapeView::Enum(variants_view(variants@)),
    }
}

/// What `payload` stands for.
pub open spec fn payload_view(payload: Payload) -> PayloadView
    decreases payload,
{
    match payload {
        Payload::Unit => PayloadView::Unit,
        Payload::Newtype(inner) => PayloadView::Newtype(Box::new(shape_view(*inner))),
        Payload::Tuple(shapes) => PayloadView::Tuple(shapes_view(shapes@)),
        Payload::Struct(fields) => PayloadView::Struct(field_shapes_view(fields@)),
    }
}

/// The shapes of a run, each by what it stands for.
pub open spec fn shapes_view(shapes: Seq<Shape>) -> Seq<ShapeView>
    decreases shapes,
{
    Seq::new(
        shapes.len(),
        |i: int|
            if 0 <= i < shapes.len() {
                shape_view(shapes[i])
            } else {
                ShapeView::Any
            },
    )
}

/// The fields of a struct shape, each by what it stands for.
pub open spec fn field_shapes_view(fields: Seq<(String, Shape)>) -> Seq<(Seq<char>, ShapeView)>
    decreases fields,
{
    Seq::new(
        fields.len(),
        |i: int|
            if 0 <= i < fields.len() {
                (fields[i].0@, shape_view(fields[i].1))
            } else {
                (Seq::<char>::empty(), ShapeView::Any)
            },
    )
}

/// The variants of an enum shape, each by what it stands for.
pub open spec fn variants_view(variants: Seq<(String, Payload)>) -> Seq<(Seq<char>, PayloadView)>
    decreases variants,
{
    Seq::new(
        variants.len(),
        |i: int|
            if 0 <= i < variants.len() {
                (variants[i].0@, payload_view(variants[i].1))
            } else {
                (Seq::<char>::empty(), PayloadView::Unit)
            },
    )
}

impl View for Shape {
    type V = ShapeView;

    open spec fn view(&self) -> ShapeView {
        shape_view(*self)
    }
}

impl View for Payload {
    type V = PayloadView;

    open spec fn view(&self) -> PayloadView {
        payload_view(*self)
    }
}

/// Where the first variant named `name` stands among `variants[from..]`, if
/// there is one.
pub open spec fn find_variant(
    variants: Seq<(Seq<char>, PayloadView)>,
    name: Seq<char>,
    from: int,
) -> Option<int>
    decreases variants.len() - from,
{
    if 0 <= from < variants.len() {
        if variants[from].0 == name {
            Some(from)
        } else {
            find_variant(variants, name, from + 1)
        }
    } else {
        None
    }
}

/// Finds the first variant named `name`.
pub fn lookup(variants: &Vec<(String, Payload)>, name: &String) -> (r: Option<usize>)
    ensures
        match r {
            Some(i) => i < variants.len() && find_variant(variants_view(variants@), name@, 0)
                == Some(i as int),
            None => find_variant(variants_view(variants@), name@, 0) is None,
        },
{
    let mut i: usize = 0;
    while i < variants.len()
        invariant
            i <= variants.len(),
            find_variant(variants_view(variants@), name@, 0) == find_variant(
                variants_view(variants@),
                name@,
                i as int,
            ),
        decreases variants.len() - i,
    {
        assert(variants_view(variants@)[i as int].0 == variants@[i as int].0@);
        if variants[i].0 == *name {
            return Some(i);
        }
        i += 1;
    }
    None
}

} // verus!
