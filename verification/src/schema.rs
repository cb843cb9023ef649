//! The schema inspector: type expressions and their shape classification.
//!
//! A field's declared type is kept as a `TypeExpr`: the identifier at the
//! head of the type path, the generic arguments carried by that head (each an
//! opaque type expression), and the whole expression for re-emission. A type
//! is classified as a sequence or an optional by an exact head-name match
//! together with the presence of exactly one generic argument; everything
//! else degrades to a scalar.

use vstd::prelude::*;

verus! {

/// Mathematical view of a `TypeExpr`.
pub ghost struct TypeExprV {
    pub head: Seq<char>,
    pub args: Seq<Seq<char>>,
    pub full: Seq<char>,
}

/// A type expression as the generator sees it.
#[derive(Debug, PartialEq, Eq)]
pub struct TypeExpr {
    /// The identifier of the first segment of the type path.
    pub head: String,
    /// The generic arguments of that segment, each as an opaque type expression.
    pub args: Vec<String>,
    /// The whole type expression, opaque, for re-emission.
    pub full: String,
}

impl View for TypeExpr {
    type V = TypeExprV;

    open spec fn view(&self) -> TypeExprV {
        TypeExprV { head: self.head@, args: self.args.deep_view(), full: self.full@ }
    }
}

impl DeepView for TypeExpr {
    type V = TypeExprV;

    open spec fn deep_view(&self) -> TypeExprV {
        self.view()
    }
}

/// The head identifier that marks an ordered-list type.
pub open spec fn seq_head() -> Seq<char> {
    "Vec"@
}

/// The head identifier that marks an optional type.
pub open spec fn opt_head() -> Seq<char> {
    "Option"@
}

/// A type is a sequence iff its head is the ordered-list name and it carries
/// exactly one generic argument.
pub open spec fn is_seq_ty(t: TypeExprV) -> bool {
    t.head == seq_head() && t.args.len() == 1
}

/// A type is an optional iff its head is the optional name and it carries
/// exactly one generic argument.
pub open spec fn is_opt_ty(t: TypeExprV) -> bool {
    t.head == opt_head() && t.args.len() == 1
}

/// Mathematical view of a shape classification.
pub ghost enum ShapeV {
    Scalar(TypeExprV),
    Sequence(Seq<char>),
    Optional(Seq<char>),
}

/// Shape of a declared type: a sequence of an element type, an optional of an
/// inner type, or a scalar left unchanged. Sequence detection takes
/// precedence; there is no nested unwrapping.
pub open spec fn shape_spec(t: TypeExprV) -> ShapeV {
    if is_seq_ty(t) {
        ShapeV::Sequence(t.args[0])
    } else if is_opt_ty(t) {
        ShapeV::Optional(t.args[0])
    } else {
        ShapeV::Scalar(t)
    }
}

/// Shape classification of a field's declared type.
#[derive(Debug, PartialEq, Eq)]
pub enum TypeShape {
    /// Any type that is neither a sequence nor an optional, unchanged.
    Scalar(TypeExpr),
    /// A sequence; the payload is the element type.
    Sequence(String),
    /// An optional; the payload is the inner type.
    Optional(String),
}

impl View for TypeShape {
    type V = ShapeV;

    open spec fn view(&self) -> ShapeV {
        match self {
            TypeShape::Scalar(t) => ShapeV::Scalar(t@),
            TypeShape::Sequence(s) => ShapeV::Sequence(s@),
            TypeShape::Optional(s) => ShapeV::Optional(s@),
        }
    }
}

impl TypeExpr {
    /// An equal copy of this type expression.
    pub fn duplicate(&self) -> (r: TypeExpr)
        ensures
            r@ == self@,
    {
        let mut args: Vec<String> = Vec::new();
        let mut i: usize = 0;
        while i < self.args.len()
            invariant
                i <= self.args.len(),
                args@.len() == i,
                forall|j: int| 0 <= j < i ==> #[trigger] args@[j]@ == self.args@[j]@,
            decreases self.args.len() - i,
        {
            let elem: &String = &self.args[i];
            args.push(elem.clone());
            i = i + 1;
        }
        proof {
            assert(args.deep_view() =~= self.args.deep_view());
        }
        TypeExpr { head: self.head.clone(), args, full: self.full.clone() }
    }
}

/// Whether the type is an optional: its head is the optional name and it
/// carries exactly one generic argument.
pub fn is_option(ty: &TypeExpr) -> (r: bool)
    ensures
        r == is_opt_ty(ty@),
{
    let k: String = "Option".to_owned();
    ty.head == k && ty.args.len() == 1
}

/// The element type if the type is a sequence, and nothing otherwise.
pub fn is_vec(ty: &TypeExpr) -> (r: Option<String>)
    ensures
        match r {
            Some(s) => is_seq_ty(ty@) && s@ == ty@.args[0],
            None => !is_seq_ty(ty@),
        },
{
    let k: String = "Vec".to_owned();
    if ty.head == k && ty.args.len() == 1 {
        Some(ty.args[0].clone())
    } else {
        None
    }
}

/// The inner type if the type is an optional, and nothing otherwise.
pub fn option_inner_type(ty: &TypeExpr) -> (r: Option<String>)
    ensures
        match r {
            Some(s) => is_opt_ty(ty@) && s@ == ty@.args[0],
            None => !is_opt_ty(ty@),
        },
{
    let k: String = "Option".to_owned();
    if ty.head == k && ty.args.len() == 1 {
        Some(ty.args[0].clone())
    } else {
        None
    }
}

/// Classify a declared type by its outermost head alone. Total: unrecognized
/// or malformed generic shapes degrade to `Scalar`.
pub fn classify(ty: &TypeExpr) -> (r: TypeShape)
    ensures
        r@ == shape_spec(ty@),
{
    if let Some(elem) = is_vec(ty) {
        TypeShape::Sequence(elem)
    } else if let Some(inner) = option_inner_type(ty) {
        TypeShape::Optional(inner)
    } else {
        TypeShape::Scalar(ty.duplicate())
    }
}

} // verus!
