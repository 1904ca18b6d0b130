//! Utilities shared by the two generators: looking up a variant's annotation
//! by path, and reading an annotation value as an integer of a required
//! width.  A value of any other shape — an identifier, arithmetic, a string,
//! a too-wide number — is rejected uniformly.

use vstd::prelude::*;

use crate::ast::{AttributeNode, SpecAttribute};
use crate::attr_args::ArgExpr;
use crate::text::str_eq;

verus! {

/// Index of the first annotation at or after `i` whose path is `name`.
pub open spec fn spec_find_attr(attrs: Seq<SpecAttribute>, name: Seq<char>, i: int) -> Option<int>
    decreases attrs.len() - i,
        when 0 <= i <= attrs.len()
{
    if i >= attrs.len() {
        None
    } else if attrs[i].path == name {
        Some(i)
    } else {
        spec_find_attr(attrs, name, i + 1)
    }
}

/// Index of the first annotation at or after `i` whose path is `name`.
pub fn find_attr_from(attrs: &Vec<AttributeNode>, name: &str, i: usize) -> (r: Option<usize>)
    requires
        i <= attrs.len(),
    ensures
        spec_find_attr(attrs.deep_view(), name@, i as int) == (match r {
            Some(idx) => Some(idx as int),
            None => None::<int>,
        }),
        match r {
            Some(idx) => i <= idx < attrs.len(),
            None => true,
        },
    decreases attrs.len() - i,
{
    if i >= attrs.len() {
        None
    } else {
        proof {
            assert(attrs.deep_view()[i as int] == attrs@[i as int]@);
        }
        if str_eq(attrs[i].path.as_str(), name) {
            Some(i)
        } else {
            find_attr_from(attrs, name, i + 1)
        }
    }
}

/// The value of an annotation field as a `u16`, when it is an integer
/// literal that fits.
pub open spec fn spec_expr_to_u16(e: ArgExpr) -> Result<u16, ()> {
    match e {
        ArgExpr::IntLit(v) => if v <= u16::MAX as u64 {
            Ok(v as u16)
        } else {
            Err(())
        },
        ArgExpr::Other => Err(()),
    }
}

/// The value of an annotation field as a `u32`, when it is an integer
/// literal that fits.
pub open spec fn spec_expr_to_u32(e: ArgExpr) -> Result<u32, ()> {
    match e {
        ArgExpr::IntLit(v) => if v <= u32::MAX as u64 {
            Ok(v as u32)
        } else {
            Err(())
        },
        ArgExpr::Other => Err(()),
    }
}

pub fn expr_to_u16(e: &ArgExpr) -> (r: Result<u16, ()>)
    ensures
        r == spec_expr_to_u16(*e),
{
    match e {
        ArgExpr::IntLit(v) => if *v <= u16::MAX as u64 {
            Ok(*v as u16)
        } else {
            Err(())
        },
        ArgExpr::Other => Err(()),
    }
}

pub fn expr_to_u32(e: &ArgExpr) -> (r: Result<u32, ()>)
    ensures
        r == spec_expr_to_u32(*e),
{
    match e {
        ArgExpr::IntLit(v) => if *v <= u32::MAX as u64 {
            Ok(*v as u32)
        } else {
            Err(())
        },
        ArgExpr::Other => Err(()),
    }
}

} // verus!
