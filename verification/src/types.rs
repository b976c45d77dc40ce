//! The types of the language and the kinds of object an identifier can name,
//! with the rules by which types combine.

use crate::text::{decimal, decimal_text, same_text};
use vstd::prelude::*;

verus! {

/// A data type of the language.
#[derive(Debug)]
pub enum DataType {
    Integer,
    Real,
    Boolean,
    Char,
    String,
    /// An array type, by its index in the array-type table.
    Array(usize),
    /// A type known only by its name.
    UserDefined(String),
    /// The type of a procedure.
    Void,
    /// Stands in wherever a type could not be resolved.
    Unknown,
}

/// A data type as the contracts see it.
pub enum DataTypeView {
    Integer,
    Real,
    Boolean,
    Char,
    String,
    Array(nat),
    UserDefined(Seq<char>),
    Void,
    Unknown,
}

impl View for DataType {
    type V = DataTypeView;

    open spec fn view(&self) -> DataTypeView {
        match *self {
            DataType::Integer => DataTypeView::Integer,
            DataType::Real => DataTypeView::Real,
            DataType::Boolean => DataTypeView::Boolean,
            DataType::Char => DataTypeView::Char,
            DataType::String => DataTypeView::String,
            DataType::Array(index) => DataTypeView::Array(index as nat),
            DataType::UserDefined(name) => DataTypeView::UserDefined(name@),
            DataType::Void => DataTypeView::Void,
            DataType::Unknown => DataTypeView::Unknown,
        }
    }
}

impl Clone for DataType {
    fn clone(&self) -> (r: DataType)
        ensures
            r@ == self@,
    {
        match self {
            DataType::Integer => DataType::Integer,
            DataType::Real => DataType::Real,
            DataType::Boolean => DataType::Boolean,
            DataType::Char => DataType::Char,
            DataType::String => DataType::String,
            DataType::Array(index) => DataType::Array(*index),
            DataType::UserDefined(name) => DataType::UserDefined(name.clone()),
            DataType::Void => DataType::Void,
            DataType::Unknown => DataType::Unknown,
        }
    }
}

impl PartialEq for DataType {
    fn eq(&self, other: &DataType) -> (r: bool) {
        match (self, other) {
            (DataType::Integer, DataType::Integer) => true,
            (DataType::Real, DataType::Real) => true,
            (DataType::Boolean, DataType::Boolean) => true,
            (DataType::Char, DataType::Char) => true,
            (DataType::String, DataType::String) => true,
            (DataType::Array(a), DataType::Array(b)) => *a == *b,
            (DataType::UserDefined(a), DataType::UserDefined(b)) => same_text(
                a.as_str(),
                b.as_str(),
            ),
            (DataType::Void, DataType::Void) => true,
            (DataType::Unknown, DataType::Unknown) => true,
            _ => false,
        }
    }
}

impl vstd::std_specs::cmp::PartialEqSpecImpl for DataType {
    open spec fn obeys_eq_spec() -> bool {
        true
    }

    open spec fn eq_spec(&self, other: &DataType) -> bool {
        self@ == other@
    }
}

/// The kind of object an identifier refers to.
#[derive(Clone, Copy, Debug, PartialEq, Eq, Structural)]
pub enum ObjectKind {
    Constant,
    Variable,
    Type,
    Procedure,
    Function,
    Parameter,
    Program,
}

/// How a type is written in diagnostics.
#[verifier::opaque]
pub open spec fn name_of_type(t: DataTypeView) -> Seq<char> {
    match t {
        DataTypeView::Integer => "integer"@,
        DataTypeView::Real => "real"@,
        DataTypeView::Boolean => "boolean"@,
        DataTypeView::Char => "char"@,
        DataTypeView::String => "string"@,
        DataTypeView::Array(index) => "array["@ + decimal_text(index) + "]"@,
        DataTypeView::UserDefined(name) => name,
        DataTypeView::Void => "void"@,
        DataTypeView::Unknown => "unknown"@,
    }
}

/// The numeric code of a type in the symbol table's listing: 0 for void, 1 to
/// 5 for the scalar types, the table index for an array, 6 for a named type,
/// and a dash where the type is unknown.
pub open spec fn type_code(t: DataTypeView) -> Seq<char> {
    match t {
        DataTypeView::Void => "0"@,
        DataTypeView::Integer => "1"@,
        DataTypeView::Real => "2"@,
        DataTypeView::Boolean => "3"@,
        DataTypeView::String => "4"@,
        DataTypeView::Char => "5"@,
        DataTypeView::Array(index) => decimal_text(index),
        DataTypeView::UserDefined(_) => "6"@,
        DataTypeView::Unknown => "-"@,
    }
}

/// Whether the type is one of the five scalar types.
pub open spec fn is_scalar(t: DataTypeView) -> bool {
    t is Integer || t is Real || t is Boolean || t is Char || t is String
}

/// Whether values of the two types can be compared: the same scalar type on
/// both sides, or an integer beside a real.
pub open spec fn compatible(a: DataTypeView, b: DataTypeView) -> bool {
    ||| (is_scalar(a) && a == b)
    ||| (a is Integer && b is Real)
    ||| (a is Real && b is Integer)
}

/// Whether a value of type `from` may be stored in a place of type `to`: the
/// types are the same scalar or the same named type, or an integer is widened
/// to a real. A real is never narrowed to an integer.
pub open spec fn assignable(to: DataTypeView, from: DataTypeView) -> bool {
    ||| (is_scalar(to) && to == from)
    ||| (to is Real && from is Integer)
    ||| (to is UserDefined && to == from)
}

/// The type of an arithmetic operation on two operands, if there is one:
/// integer with integer is integer, and any other mix of integer and real is
/// real.
pub open spec fn arithmetic_type(left: DataTypeView, right: DataTypeView) -> Option<DataTypeView> {
    if left is Integer && right is Integer {
        Some(DataTypeView::Integer)
    } else if (left is Integer || left is Real) && (right is Integer || right is Real) {
        Some(DataTypeView::Real)
    } else {
        None
    }
}

/// What is reported when two operands allow no arithmetic.
pub open spec fn arithmetic_complaint(left: DataTypeView, right: DataTypeView) -> Seq<char> {
    "Arithmetic operation not supported between "@ + name_of_type(left) + " and "@ + name_of_type(right)
}

/// What is reported when two operands cannot be compared.
pub open spec fn relational_complaint(left: DataTypeView, right: DataTypeView) -> Seq<char> {
    "Cannot compare incompatible types "@ + name_of_type(left) + " and "@ + name_of_type(right)
}

/// What is reported when an operand of a logical operation is not boolean.
pub open spec fn logical_complaint(left: DataTypeView, right: DataTypeView) -> Seq<char> {
    "Logical operation requires boolean operands, got "@ + name_of_type(left) + " and "@ + name_of_type(
        right,
    )
}

fn complaint(head: &str, left: &DataType, right: &DataType) -> (s: String)
    ensures
        s@ == head@ + name_of_type(left@) + " and "@ + name_of_type(right@),
{
    let mut s = head.to_string();
    s.append(left.name().as_str());
    s.append(" and ");
    s.append(right.name().as_str());
    s
}

impl DataType {
    /// The type's name as diagnostics write it.
    pub fn name(&self) -> (s: String)
        ensures
            s@ == name_of_type(self@),
    {
        proof {
            reveal(name_of_type);
        }
        match self {
            DataType::Integer => "integer".to_string(),
            DataType::Real => "real".to_string(),
            DataType::Boolean => "boolean".to_string(),
            DataType::Char => "char".to_string(),
            DataType::String => "string".to_string(),
            DataType::Array(index) => {
                let mut s = "array[".to_string();
                s.append(decimal(*index).as_str());
                s.append("]");
                s
            },
            DataType::UserDefined(name) => name.clone(),
            DataType::Void => "void".to_string(),
            DataType::Unknown => "unknown".to_string(),
        }
    }

    /// Whether values of the two types can be compared with one another.
    pub fn is_compatible(&self, other: &DataType) -> (r: bool)
        ensures
            r == compatible(self@, other@),
    {
        match (self, other) {
            (DataType::Integer, DataType::Integer) => true,
            (DataType::Real, DataType::Real) => true,
            (DataType::Boolean, DataType::Boolean) => true,
            (DataType::Char, DataType::Char) => true,
            (DataType::String, DataType::String) => true,
            (DataType::Integer, DataType::Real) => true,
            (DataType::Real, DataType::Integer) => true,
            _ => false,
        }
    }

    /// Whether a value of type `from` can be assigned to a place of type `to`.
    pub fn can_assign(to: &DataType, from: &DataType) -> (r: bool)
        ensures
            r == assignable(to@, from@),
    {
        match (to, from) {
            (DataType::Integer, DataType::Integer) => true,
            (DataType::Real, DataType::Real) => true,
            (DataType::Real, DataType::Integer) => true,
            (DataType::Boolean, DataType::Boolean) => true,
            (DataType::Char, DataType::Char) => true,
            (DataType::String, DataType::String) => true,
            (DataType::UserDefined(a), DataType::UserDefined(b)) => same_text(
                a.as_str(),
                b.as_str(),
            ),
            _ => false,
        }
    }

    /// The result type of a binary arithmetic operation, or why there is none.
    pub fn get_arithmetic_result_type(left: &DataType, right: &DataType) -> (r: Result<
        DataType,
        String,
    >)
        ensures
            match r {
                Ok(t) => arithmetic_type(left@, right@) == Some(t@),
                Err(m) => arithmetic_type(left@, right@) is None && m@ == arithmetic_complaint(
                    left@,
                    right@,
                ),
            },
    {
        match (left, right) {
            (DataType::Integer, DataType::Integer) => Ok(DataType::Integer),
            (DataType::Real, DataType::Real) => Ok(DataType::Real),
            (DataType::Integer, DataType::Real) => Ok(DataType::Real),
            (DataType::Real, DataType::Integer) => Ok(DataType::Real),
            _ => Err(complaint("Arithmetic operation not supported between ", left, right)),
        }
    }

    /// The result type of a comparison, which is boolean whenever the
    /// operands are compatible, or why there is none.
    pub fn get_relational_result_type(left: &DataType, right: &DataType) -> (r: Result<
        DataType,
        String,
    >)
        ensures
            match r {
                Ok(t) => compatible(left@, right@) && t@ == DataTypeView::Boolean,
                Err(m) => !compatible(left@, right@) && m@ == relational_complaint(left@, right@),
            },
    {
        if left.is_compatible(right) {
            Ok(DataType::Boolean)
        } else {
            Err(complaint("Cannot compare incompatible types ", left, right))
        }
    }

    /// The result type of a logical operation, which asks for two booleans,
    /// or why there is none.
    pub fn get_logical_result_type(left: &DataType, right: &DataType) -> (r: Result<
        DataType,
        String,
    >)
        ensures
            match r {
                Ok(t) => left@ is Boolean && right@ is Boolean && t@ == DataTypeView::Boolean,
                Err(m) => !(left@ is Boolean && right@ is Boolean) && m@ == logical_complaint(
                    left@,
                    right@,
                ),
            },
    {
        match (left, right) {
            (DataType::Boolean, DataType::Boolean) => Ok(DataType::Boolean),
            _ => Err(
                complaint("Logical operation requires boolean operands, got ", left, right),
            ),
        }
    }

    /// Whether this is a numeric type: integer or real.
    pub fn is_numeric(&self) -> (r: bool)
        ensures
            r == (self@ is Integer || self@ is Real),
    {
        matches!(self, DataType::Integer | DataType::Real)
    }

    /// Whether this is an ordinal type, one that can count a loop or index an
    /// array: integer, char or boolean.
    pub fn is_ordinal(&self) -> (r: bool)
        ensures
            r == (self@ is Integer || self@ is Char || self@ is Boolean),
    {
        matches!(self, DataType::Integer | DataType::Char | DataType::Boolean)
    }

    /// The type's numeric code as the symbol table's listing writes it.
    pub fn to_numeric(&self) -> (s: String)
        ensures
            s@ == type_code(self@),
    {
        match self {
            DataType::Void => "0".to_string(),
            DataType::Integer => "1".to_string(),
            DataType::Real => "2".to_string(),
            DataType::Boolean => "3".to_string(),
            DataType::String => "4".to_string(),
            DataType::Char => "5".to_string(),
            DataType::Array(index) => decimal(*index),
            DataType::UserDefined(_) => "6".to_string(),
            DataType::Unknown => "-".to_string(),
        }
    }
}

} // verus!
