//! A small language-neutral model of synthesized type shapes, and merging
//! of two shapes into one.
use vstd::prelude::*;

verus! {

/// A fixed-width or text scalar shape.
#[derive(Debug, PartialEq, Eq)]
pub enum Scalar {
    I8,
    I16,
    I32,
    I64,
    U8,
    U16,
    U32,
    U64,
    Usize,
    F32,
    F64,
    Str,
    String,
}

/// A synthesized type shape.
#[derive(Debug, PartialEq, Eq)]
pub enum Type {
    Scalar(Scalar),
    Union(Vec<(String, Type)>),
    Enum(Vec<(String, Type)>),
    Tuple(Vec<Type>),
    Collection(Box<Type>, Option<usize>),
    Mapping(String, Box<Type>),
}

/// How merging `b` into `a` leaves `a`: a scalar is replaced by the merged
/// scalar; a union absorbs the cases of a union or of a closed variant
/// set; every other combination leaves `a` as it stands.
pub open spec fn merge_rel(a: Type, b: Type, out: Type) -> bool {
    match (a, b) {
        (Type::Scalar(_), Type::Scalar(_)) => out == b,
        (Type::Union(l), Type::Union(r)) => (out matches Type::Union(u) && u@ == l@ + r@),
        (Type::Union(l), Type::Enum(r)) => (out matches Type::Union(u) && u@ == l@ + r@),
        _ => out == a,
    }
}

impl Type {
    /// Merges `ty` into this shape. The merging shape keeps its kind.
    pub fn merge(&mut self, ty: Type)
        ensures
            merge_rel(*old(self), ty, *final(self)),
    {
        match (&mut *self, ty) {
            (Type::Scalar(l), Type::Scalar(r)) => {
                *l = r;
            },
            (Type::Union(l), Type::Union(r)) => {
                let mut r = r;
                l.append(&mut r);
            },
            (Type::Union(l), Type::Enum(r)) => {
                let mut r = r;
                l.append(&mut r);
            },
            _ => {},
        }
    }
}

} // verus!
