//! The semantic layer's type model: the types the analyzer assigns to
//! expressions, their cell sizes, and the evaluated forms arguments
//! can take.

use vstd::prelude::*;

use crate::lexical::Location;

verus! {

/// One semantic type.
#[derive(Debug, PartialEq, Eq)]
pub enum Type {
    Unit,
    Boolean,
    IntegerUnsigned { bitlength: usize },
    IntegerSigned { bitlength: usize },
    Field,
    Array { element: Box<Type>, size: usize },
    Tuple { types: Vec<Type> },
    Structure { identifier: String, fields: Vec<(String, Type)> },
}

/// A structural measure used for termination of the size computation.
pub open spec fn type_height(t: Type) -> nat
    decreases t,
{
    match t {
        Type::Array { element, size } => 1 + type_height(*element),
        Type::Tuple { types } => 1 + type_list_height(types@),
        Type::Structure { fields, .. } => 1 + field_list_height(fields@),
        _ => 0,
    }
}

pub open spec fn type_list_height(s: Seq<Type>) -> nat
    decreases s,
{
    if s.len() == 0 {
        0
    } else {
        let h = type_height(s[0]);
        let rest = type_list_height(s.skip(1));
        1 + if h > rest {
            h
        } else {
            rest
        }
    }
}

pub open spec fn field_list_height(s: Seq<(String, Type)>) -> nat
    decreases s,
{
    if s.len() == 0 {
        0
    } else {
        let h = type_height(s[0].1);
        let rest = field_list_height(s.skip(1));
        1 + if h > rest {
            h
        } else {
            rest
        }
    }
}

proof fn lemma_type_list_height_ge(s: Seq<Type>, i: int)
    requires
        0 <= i < s.len(),
    ensures
        type_height(s[i]) < type_list_height(s),
    decreases s.len(),
{
    if i > 0 {
        assert(s.skip(1)[i - 1] == s[i]);
        lemma_type_list_height_ge(s.skip(1), i - 1);
    }
}

proof fn lemma_field_list_height_ge(s: Seq<(String, Type)>, i: int)
    requires
        0 <= i < s.len(),
    ensures
        type_height(s[i].1) < field_list_height(s),
    decreases s.len(),
{
    if i > 0 {
        assert(s.skip(1)[i - 1] == s[i]);
        lemma_field_list_height_ge(s.skip(1), i - 1);
    }
}

/// The number of cells a value of the type occupies.
pub open spec fn spec_size(t: Type) -> nat
    decreases t,
{
    match t {
        Type::Unit => 0,
        Type::Boolean => 1,
        Type::IntegerUnsigned { .. } => 1,
        Type::IntegerSigned { .. } => 1,
        Type::Field => 1,
        Type::Array { element, size } => (spec_size(*element) * size) as nat,
        Type::Tuple { types } => spec_size_list(types@),
        Type::Structure { fields, .. } => spec_size_fields(fields@),
    }
}

pub open spec fn spec_size_list(s: Seq<Type>) -> nat
    decreases s,
{
    if s.len() == 0 {
        0
    } else {
        spec_size(s[0]) + spec_size_list(s.skip(1))
    }
}

pub open spec fn spec_size_fields(s: Seq<(String, Type)>) -> nat
    decreases s,
{
    if s.len() == 0 {
        0
    } else {
        spec_size(s[0].1) + spec_size_fields(s.skip(1))
    }
}

proof fn lemma_size_list_step(s: Seq<Type>, k: int)
    requires
        0 <= k < s.len(),
    ensures
        spec_size_list(s.skip(k)) == spec_size(s[k]) + spec_size_list(s.skip(k + 1)),
{
    assert(s.skip(k)[0] == s[k]);
    assert(s.skip(k).skip(1) =~= s.skip(k + 1));
}

proof fn lemma_size_fields_step(s: Seq<(String, Type)>, k: int)
    requires
        0 <= k < s.len(),
    ensures
        spec_size_fields(s.skip(k)) == spec_size(s[k].1) + spec_size_fields(s.skip(k + 1)),
{
    assert(s.skip(k)[0] == s[k]);
    assert(s.skip(k).skip(1) =~= s.skip(k + 1));
}

impl Type {
    /// Whether the type is a single-cell scalar.
    pub fn is_scalar(&self) -> (r: bool)
        ensures
            r == self.spec_is_scalar(),
    {
        match self {
            Type::Boolean => true,
            Type::IntegerUnsigned { .. } => true,
            Type::IntegerSigned { .. } => true,
            Type::Field => true,
            _ => false,
        }
    }

    pub open spec fn spec_is_scalar(self) -> bool {
        match self {
            Type::Boolean => true,
            Type::IntegerUnsigned { .. } => true,
            Type::IntegerSigned { .. } => true,
            Type::Field => true,
            _ => false,
        }
    }

    /// Whether the type is an integer scalar.
    pub open spec fn spec_is_integer(self) -> bool {
        match self {
            Type::IntegerUnsigned { .. } => true,
            Type::IntegerSigned { .. } => true,
            Type::Field => true,
            _ => false,
        }
    }

    pub fn is_integer(&self) -> (r: bool)
        ensures
            r == self.spec_is_integer(),
    {
        match self {
            Type::IntegerUnsigned { .. } => true,
            Type::IntegerSigned { .. } => true,
            Type::Field => true,
            _ => false,
        }
    }

    /// The number of cells a value of the type occupies.
    pub fn size(&self) -> (r: usize)
        requires
            spec_size(*self) <= usize::MAX,
        ensures
            r == spec_size(*self),
        decreases type_height(*self), 1int,
    {
        match self {
            Type::Unit => 0,
            Type::Boolean => 1,
            Type::IntegerUnsigned { .. } => 1,
            Type::IntegerSigned { .. } => 1,
            Type::Field => 1,
            Type::Array { element, size } => {
                if *size == 0 {
                    proof {
                        assert(spec_size(**element) * 0 == 0) by (nonlinear_arith);
                    }
                    0
                } else {
                    proof {
                        assert(spec_size(**element) <= spec_size(**element) * (*size as int))
                            by (nonlinear_arith)
                            requires
                                *size >= 1,
                        ;
                    }
                    let es = element.size();
                    es * *size
                }
            },
            Type::Tuple { types } => size_of_type_list(types),
            Type::Structure { fields, .. } => size_of_field_list(fields),
        }
    }
}

/// The total size of a list of types.
fn size_of_type_list(types: &Vec<Type>) -> (r: usize)
    requires
        spec_size_list(types@) <= usize::MAX,
    ensures
        r == spec_size_list(types@),
    decreases type_list_height(types@), 0int,
{
    let mut total: usize = 0;
    let mut k: usize = 0;
    proof {
        assert(types@.skip(0) =~= types@);
    }
    while k < types.len()
        invariant
            k <= types@.len(),
            total + spec_size_list(types@.skip(k as int)) == spec_size_list(types@),
            spec_size_list(types@) <= usize::MAX,
        decreases types@.len() - k,
    {
        proof {
            lemma_size_list_step(types@, k as int);
            lemma_type_list_height_ge(types@, k as int);
        }
        let s = types[k].size();
        total = total + s;
        k = k + 1;
    }
    proof {
        assert(types@.skip(k as int).len() == 0);
    }
    total
}

/// The total size of a list of named fields.
fn size_of_field_list(fields: &Vec<(String, Type)>) -> (r: usize)
    requires
        spec_size_fields(fields@) <= usize::MAX,
    ensures
        r == spec_size_fields(fields@),
    decreases field_list_height(fields@), 0int,
{
    let mut total: usize = 0;
    let mut k: usize = 0;
    proof {
        assert(fields@.skip(0) =~= fields@);
    }
    while k < fields.len()
        invariant
            k <= fields@.len(),
            total + spec_size_fields(fields@.skip(k as int)) == spec_size_fields(fields@),
            spec_size_fields(fields@) <= usize::MAX,
        decreases fields@.len() - k,
    {
        proof {
            lemma_size_fields_step(fields@, k as int);
            lemma_field_list_height_ge(fields@, k as int);
        }
        let s = fields[k].1.size();
        total = total + s;
        k = k + 1;
    }
    proof {
        assert(fields@.skip(k as int).len() == 0);
    }
    total
}

/// A compile-time constant form an argument can take.
#[derive(Debug, PartialEq, Eq)]
pub enum Constant {
    /// An integer constant with its value and declared type.
    Integer { value: i128, ty: Type },
    /// A half-open range constant.
    Range { start: i128, end: i128 },
    /// An inclusive range constant.
    RangeInclusive { start: i128, end: i128 },
    /// Some other constant of the given type.
    Other { ty: Type },
}

impl Constant {
    /// The type the constant carries.
    pub open spec fn spec_type_of(self) -> Type {
        match self {
            Constant::Integer { ty, .. } => ty,
            Constant::Range { .. } => Type::Unit,
            Constant::RangeInclusive { .. } => Type::Unit,
            Constant::Other { ty } => ty,
        }
    }

    pub fn type_of(self) -> (r: Type)
        ensures
            r == self.spec_type_of(),
    {
        match self {
            Constant::Integer { ty, .. } => ty,
            Constant::Range { .. } => Type::Unit,
            Constant::RangeInclusive { .. } => Type::Unit,
            Constant::Other { ty } => ty,
        }
    }
}

/// One evaluated (or not) argument element, with where it was written.
#[derive(Debug, PartialEq, Eq)]
pub enum Element {
    /// A runtime value of the given type.
    Value(Type),
    /// A compile-time constant.
    Constant(Constant),
    /// A form that does not evaluate to a value.
    NotEvaluable,
}

/// An argument list: the elements with their locations.
#[derive(Debug, PartialEq, Eq)]
pub struct ArgumentList {
    pub location: Location,
    pub arguments: Vec<(Element, Location)>,
}

impl ArgumentList {
    pub fn new(location: Location, arguments: Vec<(Element, Location)>) -> (r: Self)
        ensures
            r.location == location,
            r.arguments == arguments,
    {
        Self { location, arguments }
    }
}

} // verus!
