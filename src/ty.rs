//! Resolved source types, the IR's types, and the mapping between them as
//! mathematical functions.

use vstd::prelude::*;
use crate::diag::{Fault, Severity};

verus! {

/// Direction of a range.
#[derive(PartialEq, Eq, Structural, Clone, Copy, Debug)]
pub enum Dir {
    To,
    Downto,
}

/// An integer range type `left to right` or `left downto right`.
#[derive(PartialEq, Eq, Structural, Clone, Copy, Debug)]
pub struct IntTy {
    pub left_bound: i64,
    pub right_bound: i64,
    pub dir: Dir,
}

/// An index of an array type.
#[derive(Debug)]
pub enum ArrayIndex {
    /// `range <>`: no bounds known.
    Unbounded,
    /// Constrained by the given index type.
    Constrained(Box<Ty>),
}

/// A structural type after all alias and name indirection is stripped.
#[derive(Debug)]
pub enum Ty {
    /// A reference to a named type that was not resolved.
    Named(String),
    Null,
    Int(IntTy),
    /// An enumeration, by the id of its declaration.
    Enum(usize),
    /// A physical type, by its name.
    Physical(String),
    /// An access (pointer) type to the given type.
    Access(Box<Ty>),
    /// An array with an element type and one or more indices.
    Array(Box<Ty>, Vec<ArrayIndex>),
    File,
    /// A record with the types of its fields, in declaration order.
    Record(Vec<Ty>),
    Subprog,
    UnboundedInt,
    UniversalInt,
}

/// A type of the IR.
#[derive(Debug)]
pub enum IrType {
    Void,
    /// An integer of the given bit width.
    Int(usize),
    /// An enumeration with the given number of states.
    Enum(usize),
    Pointer(Box<IrType>),
    /// An array with the given number of elements.
    Array(usize, Box<IrType>),
    Struct(Vec<IrType>),
}

/// The mathematical value of an IR type.
pub enum TypeModel {
    Void,
    Int(nat),
    Enum(nat),
    Pointer(Box<TypeModel>),
    Array(nat, Box<TypeModel>),
    Struct(Seq<TypeModel>),
}

impl IrType {
    pub open spec fn model(self) -> TypeModel
        decreases self,
    {
        match self {
            IrType::Void => TypeModel::Void,
            IrType::Int(w) => TypeModel::Int(w as nat),
            IrType::Enum(n) => TypeModel::Enum(n as nat),
            IrType::Pointer(t) => TypeModel::Pointer(Box::new((*t).model())),
            IrType::Array(n, t) => TypeModel::Array(n as nat, Box::new((*t).model())),
            IrType::Struct(fs) => TypeModel::Struct(
                Seq::new(
                    fs@.len(),
                    |i: int|
                        if 0 <= i < fs@.len() {
                            fs@[i].model()
                        } else {
                            TypeModel::Void
                        },
                ),
            ),
        }
    }
}

/// The signed difference that decides the width of an integer range.
pub open spec fn int_diff(t: IntTy) -> int {
    match t.dir {
        Dir::To => t.right_bound - t.left_bound,
        Dir::Downto => t.left_bound - t.right_bound,
    }
}

/// The number of values in an integer range (zero or less when empty).
pub open spec fn int_len(t: IntTy) -> int {
    int_diff(t) + 1
}

/// The number of bits needed to represent `n` (none for zero).
pub open spec fn bits(n: nat) -> nat
    decreases n,
{
    if n == 0 {
        0
    } else {
        1 + bits(n / 2)
    }
}

/// The literal count of the enumeration declared by `decl`, if its
/// declaration data is known. `enums` maps declaration ids to literal counts.
pub open spec fn enum_size(enums: Seq<Option<usize>>, decl: usize) -> Option<nat> {
    if decl < enums.len() && enums[decl as int] is Some {
        Some(enums[decl as int]->Some_0 as nat)
    } else {
        None
    }
}

pub open spec fn physical_message(name: Seq<char>) -> Seq<char> {
    "cannot generate code for physical type `"@ + name + "`"@
}

pub open spec fn unbounded_message() -> Seq<char> {
    "array type is unbounded"@
}

pub open spec fn too_large_message() -> Seq<char> {
    "array index is too large"@
}

pub open spec fn invalid_index_message() -> Seq<char> {
    "invalid array index type"@
}

/// What an array index contributes when the array is wrapped around it.
pub enum IndexCount {
    /// Wrap in an array of this many elements.
    Count(nat),
    /// The index range is empty: the whole array maps to void.
    Empty,
    Fail(Fault),
}

pub open spec fn index_count(enums: Seq<Option<usize>>, index: ArrayIndex) -> IndexCount {
    match index {
        ArrayIndex::Unbounded => IndexCount::Fail(Fault::Report(Severity::Error, unbounded_message())),
        ArrayIndex::Constrained(t) => match *t {
            Ty::Int(it) => if int_len(it) <= 0 {
                IndexCount::Empty
            } else if int_len(it) > usize::MAX {
                IndexCount::Fail(Fault::Report(Severity::Error, too_large_message()))
            } else {
                IndexCount::Count(int_len(it) as nat)
            },
            Ty::Enum(d) => match enum_size(enums, d) {
                Some(n) => IndexCount::Count(n),
                None => IndexCount::Fail(Fault::Defect),
            },
            _ => IndexCount::Fail(Fault::Report(Severity::Error, invalid_index_message())),
        },
    }
}

/// Wraps `inner` in the first `n` indices, innermost last: the index at
/// position `n - 1` is applied first.
pub open spec fn wrap_indices(
    enums: Seq<Option<usize>>,
    indices: Seq<ArrayIndex>,
    n: nat,
    inner: TypeModel,
) -> Result<TypeModel, Fault>
    decreases n,
{
    if n == 0 {
        Ok(inner)
    } else {
        match index_count(enums, indices[n - 1]) {
            IndexCount::Count(c) => wrap_indices(
                enums,
                indices,
                (n - 1) as nat,
                TypeModel::Array(c, Box::new(inner)),
            ),
            IndexCount::Empty => Ok(TypeModel::Void),
            IndexCount::Fail(f) => Err(f),
        }
    }
}

/// The IR type of a resolved type, or the fault that mapping it meets first.
pub open spec fn map_ty(enums: Seq<Option<usize>>, t: Ty) -> Result<TypeModel, Fault>
    decreases t, 0nat,
{
    match t {
        Ty::Null => Ok(TypeModel::Void),
        Ty::Int(it) => if int_diff(it) < 0 {
            Ok(TypeModel::Void)
        } else {
            Ok(TypeModel::Int(bits(int_diff(it) as nat)))
        },
        Ty::Enum(d) => match enum_size(enums, d) {
            Some(n) => Ok(TypeModel::Enum(n)),
            None => Err(Fault::Defect),
        },
        Ty::Physical(name) => Err(Fault::Report(Severity::Error, physical_message(name@))),
        Ty::Access(p) => match map_ty(enums, *p) {
            Ok(m) => Ok(TypeModel::Pointer(Box::new(m))),
            Err(f) => Err(f),
        },
        Ty::Array(e, indices) => match map_ty(enums, *e) {
            Ok(m) => wrap_indices(enums, indices@, indices@.len(), m),
            Err(f) => Err(f),
        },
        Ty::File => Ok(TypeModel::Int(32)),
        Ty::Record(fields) => match map_fields(enums, fields@, fields@.len()) {
            Ok(ms) => Ok(TypeModel::Struct(ms)),
            Err(f) => Err(f),
        },
        _ => Err(Fault::Defect),
    }
}

/// The IR types of the first `n` fields, mapped in order, or the fault of the
/// first field that fails.
pub open spec fn map_fields(enums: Seq<Option<usize>>, fields: Seq<Ty>, n: nat) -> Result<
    Seq<TypeModel>,
    Fault,
>
    decreases fields, n,
{
    if n == 0 || n > fields.len() {
        Ok(Seq::empty())
    } else {
        match map_fields(enums, fields, (n - 1) as nat) {
            Ok(prev) => match map_ty(enums, fields[n - 1]) {
                Ok(m) => Ok(prev.push(m)),
                Err(f) => Err(f),
            },
            Err(f) => Err(f),
        }
    }
}

/// Type mapping is a function of the type and the enumeration table: equal
/// inputs map to equal results.
pub proof fn lemma_map_type_deterministic(enums: Seq<Option<usize>>, a: Ty, b: Ty)
    requires
        a == b,
    ensures
        map_ty(enums, a) == map_ty(enums, b),
{
}

/// An integer range maps to the same type when its direction is swapped
/// together with its bounds.
pub proof fn lemma_int_direction_swap(enums: Seq<Option<usize>>, l: i64, r: i64)
    ensures
        map_ty(enums, Ty::Int(IntTy { left_bound: l, right_bound: r, dir: Dir::To })) == map_ty(
            enums,
            Ty::Int(IntTy { left_bound: r, right_bound: l, dir: Dir::Downto }),
        ),
{
}

/// An array with two indices nests the last index innermost: the element
/// type is wrapped by the second index, and that by the first.
pub proof fn lemma_array_last_index_innermost(
    enums: Seq<Option<usize>>,
    t: Ty,
    first: ArrayIndex,
    second: ArrayIndex,
    c1: nat,
    c2: nat,
    element: TypeModel,
)
    requires
        t is Array,
        t->Array_1@ == seq![first, second],
        map_ty(enums, *t->Array_0) == Ok::<TypeModel, Fault>(element),
        index_count(enums, first) == IndexCount::Count(c1),
        index_count(enums, second) == IndexCount::Count(c2),
    ensures
        map_ty(enums, t) == Ok::<TypeModel, Fault>(
            TypeModel::Array(c1, Box::new(TypeModel::Array(c2, Box::new(element)))),
        ),
{
    let idx = t->Array_1@;
    assert(idx[1] == second);
    assert(idx[0] == first);
    assert(wrap_indices(enums, idx, 2, element) == wrap_indices(
        enums,
        idx,
        1,
        TypeModel::Array(c2, Box::new(element)),
    ));
    assert(wrap_indices(enums, idx, 1, TypeModel::Array(c2, Box::new(element))) == wrap_indices(
        enums,
        idx,
        0,
        TypeModel::Array(c1, Box::new(TypeModel::Array(c2, Box::new(element)))),
    ));
    assert(map_ty(enums, t) == wrap_indices(enums, idx, 2, element));
}

} // verus!
