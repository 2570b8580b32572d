//! The ordering gadgets of field-element variables.
//!
//! The gadgets compare the integers that two field elements stand for. They take both
//! operands to be at most half of the largest element, and record
//! constraints that fail where one is not. With equality allowed, the larger
//! side is raised by one before the comparison. The contracts in this module
//! are trusted, not proved.

use crate::circuit::constraints::{
    constraints_hold, half_modulus, modulus, ready, Bit, Constraints, Num,
};
use ark_relations::r1cs::SynthesisError;
use core::cmp::Ordering;
use vstd::prelude::*;

verus! {

/// The operand that must be the smaller one for `a` and `b` to stand in
/// `ordering`.
pub open spec fn lesser_side(a: int, b: int, ordering: Ordering) -> int {
    match ordering {
        Ordering::Less => a,
        _ => b,
    }
}

/// The operand that must be the larger one for `a` and `b` to stand in
/// `ordering`, raised by one in the field where equality is allowed.
pub open spec fn greater_side(a: int, b: int, ordering: Ordering, with_equality: bool) -> int {
    let other = match ordering {
        Ordering::Less => b,
        _ => a,
    };
    if with_equality {
        (other + 1) % modulus()
    } else {
        other
    }
}

/// Whether both sides of the comparison are at most half of the largest
/// field element.
pub open spec fn comparable(a: int, b: int, ordering: Ordering, with_equality: bool) -> bool {
    lesser_side(a, b, ordering) <= half_modulus() && greater_side(a, b, ordering, with_equality)
        <= half_modulus()
}

/// Whether the lesser side is below the greater side.
pub open spec fn in_order(a: int, b: int, ordering: Ordering, with_equality: bool) -> bool {
    lesser_side(a, b, ordering) < greater_side(a, b, ordering, with_equality)
}

/// Whether the ordering gadgets take the operands without failing: the
/// ordering is not `Equal`, and a side that is a constant is at most half of
/// the largest field element. A side is a constant exactly if its operand
/// is.
pub open spec fn operands_pass(
    cs: Constraints,
    a: Num,
    b: Num,
    ordering: Ordering,
    with_equality: bool,
) -> bool {
    let lesser = match ordering {
        Ordering::Less => a,
        _ => b,
    };
    let greater = match ordering {
        Ordering::Less => b,
        _ => a,
    };
    &&& ordering != Ordering::Equal
    &&& cs.is_constant(lesser) ==> lesser_side(cs.num(a), cs.num(b), ordering) <= half_modulus()
    &&& cs.is_constant(greater) ==> greater_side(cs.num(a), cs.num(b), ordering, with_equality)
        <= half_modulus()
}

/// Records that `a` stands in `ordering` to `b`: `Less` for below, `Greater`
/// for above, and with `with_equality` also equal.
///
/// Calls `FpVar::enforce_cmp`, which fails for `Equal`, for a constant side
/// above the half, for two constants, and where the system is not there, and
/// on nothing else. Trusted: the system stays satisfied exactly if both
/// sides are comparable and in order.
#[verifier::external_body]
pub(crate) fn num_enforce_cmp(
    cs: &mut Constraints,
    a: Num,
    b: Num,
    ordering: Ordering,
    with_equality: bool,
) -> (r: Result<(), SynthesisError>)
    requires
        old(cs).has_num(a),
        old(cs).has_num(b),
    ensures
        ordering == Ordering::Equal ==> r is Err,
        ready(*old(cs)) && operands_pass(*old(cs), a, b, ordering, with_equality) && !(old(cs).is_constant(
            a,
        ) && old(cs).is_constant(b)) ==> r is Ok,
        r is Ok ==> final(cs).same_variables(*old(cs)),
        r is Ok ==> (constraints_hold(*final(cs)) == (constraints_hold(*old(cs)) && comparable(
            old(cs).num(a),
            old(cs).num(b),
            ordering,
            with_equality,
        ) && in_order(old(cs).num(a), old(cs).num(b), ordering, with_equality))),
{
    cs.nums[a.0].enforce_cmp(&cs.nums[b.0], ordering, with_equality)
}

/// A boolean variable that says whether `a` stands in `ordering` to `b`.
///
/// Calls `FpVar::is_cmp`, which fails for `Equal`, for a constant side above
/// the half, and where the system is not there, and on nothing else.
/// Trusted: the system stays satisfied exactly if both sides are comparable,
/// and then the result says whether they are in order; the result is a
/// constant only if both operands are.
#[verifier::external_body]
pub(crate) fn num_is_cmp(
    cs: &mut Constraints,
    a: Num,
    b: Num,
    ordering: Ordering,
    with_equality: bool,
) -> (r: Result<Bit, SynthesisError>)
    requires
        old(cs).has_num(a),
        old(cs).has_num(b),
    ensures
        ordering == Ordering::Equal ==> r is Err,
        ready(*old(cs)) && operands_pass(*old(cs), a, b, ordering, with_equality) ==> r is Ok,
        r matches Ok(bit) ==> (final(cs).is_constant_bit(bit) == (old(cs).is_constant(a) && old(cs).is_constant(
            b,
        ))),
        r matches Ok(bit) ==> final(cs).adds_bit(*old(cs), bit, final(cs).bit(bit)),
        r matches Ok(bit) ==> (comparable(old(cs).num(a), old(cs).num(b), ordering, with_equality)
            ==> final(cs).bit(bit) == in_order(
            old(cs).num(a),
            old(cs).num(b),
            ordering,
            with_equality,
        )),
        r is Ok ==> (constraints_hold(*final(cs)) == (constraints_hold(*old(cs)) && comparable(
            old(cs).num(a),
            old(cs).num(b),
            ordering,
            with_equality,
        ))),
{
    let bit = Bit(cs.bits.len());
    cs.bits.push(cs.nums[a.0].is_cmp(&cs.nums[b.0], ordering, with_equality)?);
    Ok(bit)
}

/// Whether the ordering gadgets accept `a` and `b` and find `a` at most `b`:
/// `a` and the successor of `b` in the field are both at most half of the
/// largest element, and `a` is below that successor.
pub open spec fn at_most(a: int, b: int) -> bool {
    &&& a <= half_modulus()
    &&& (b + 1) % modulus() <= half_modulus()
    &&& a < (b + 1) % modulus()
}

/// Whether the ordering gadgets accept `a` and the successor of `b` in the
/// field: both are at most half of the largest element.
pub open spec fn weakly_comparable(a: int, b: int) -> bool {
    a <= half_modulus() && (b + 1) % modulus() <= half_modulus()
}

/// Whether the ordering gadgets accept `a` and `b`: both are at most half of
/// the largest element.
pub open spec fn strictly_comparable(a: int, b: int) -> bool {
    a <= half_modulus() && b <= half_modulus()
}

/// Whether the ordering gadgets take `small` and the successor of `large`
/// without failing: each of the two that is a constant is at most half of
/// the largest field element.
pub open spec fn passes_weakly(cs: Constraints, small: Num, large: Num) -> bool {
    &&& cs.is_constant(small) ==> cs.num(small) <= half_modulus()
    &&& cs.is_constant(large) ==> (cs.num(large) + 1) % modulus() <= half_modulus()
}

/// Whether the ordering gadgets take `small` and `large` without failing:
/// each of the two that is a constant is at most half of the largest field
/// element.
pub open spec fn passes_strictly(cs: Constraints, small: Num, large: Num) -> bool {
    &&& cs.is_constant(small) ==> cs.num(small) <= half_modulus()
    &&& cs.is_constant(large) ==> cs.num(large) <= half_modulus()
}

/// Whether `a` and `b` are not both constants.
pub open spec fn one_is_variable(cs: Constraints, a: Num, b: Num) -> bool {
    !(cs.is_constant(a) && cs.is_constant(b))
}

/// Records that `a` is at most `b`.
pub(crate) fn enforce_at_most(cs: &mut Constraints, a: Num, b: Num) -> (r: Result<(), SynthesisError>)
    requires
        old(cs).has_num(a),
        old(cs).has_num(b),
    ensures
        ready(*old(cs)) && passes_weakly(*old(cs), a, b) && one_is_variable(*old(cs), a, b)
            ==> r is Ok,
        r is Ok ==> final(cs).same_variables(*old(cs)),
        r is Ok ==> (constraints_hold(*final(cs)) == (constraints_hold(*old(cs)) && at_most(
            old(cs).num(a),
            old(cs).num(b),
        ))),
{
    num_enforce_cmp(cs, a, b, Ordering::Less, true)
}

/// Records that `a` is at least `b`.
pub(crate) fn enforce_at_least(cs: &mut Constraints, a: Num, b: Num) -> (r: Result<(), SynthesisError>)
    requires
        old(cs).has_num(a),
        old(cs).has_num(b),
    ensures
        ready(*old(cs)) && passes_weakly(*old(cs), b, a) && one_is_variable(*old(cs), a, b)
            ==> r is Ok,
        r is Ok ==> final(cs).same_variables(*old(cs)),
        r is Ok ==> (constraints_hold(*final(cs)) == (constraints_hold(*old(cs)) && at_most(
            old(cs).num(b),
            old(cs).num(a),
        ))),
{
    num_enforce_cmp(cs, a, b, Ordering::Greater, true)
}

/// A boolean variable that says whether `a` is at most `b`; the system stays
/// satisfied only if the gadgets accept the operands.
pub(crate) fn is_at_most(cs: &mut Constraints, a: Num, b: Num) -> (r: Result<Bit, SynthesisError>)
    requires
        old(cs).has_num(a),
        old(cs).has_num(b),
    ensures
        ready(*old(cs)) && passes_weakly(*old(cs), a, b) ==> r is Ok,
        r matches Ok(bit) ==> (final(cs).is_constant_bit(bit) == !one_is_variable(*old(cs), a, b)),
        r matches Ok(bit) ==> final(cs).adds_bit(*old(cs), bit, final(cs).bit(bit)),
        r matches Ok(bit) ==> (weakly_comparable(old(cs).num(a), old(cs).num(b)) ==> final(cs).bit(bit) == (old(cs).num(a) < (old(cs).num(b) + 1) % modulus())),
        r is Ok ==> (constraints_hold(*final(cs)) == (constraints_hold(*old(cs))
            && weakly_comparable(old(cs).num(a), old(cs).num(b)))),
{
    num_is_cmp(cs, a, b, Ordering::Less, true)
}

/// A boolean variable that says whether `a` is at least `b`; the system
/// stays satisfied only if the gadgets accept the operands.
pub(crate) fn is_at_least(cs: &mut Constraints, a: Num, b: Num) -> (r: Result<Bit, SynthesisError>)
    requires
        old(cs).has_num(a),
        old(cs).has_num(b),
    ensures
        ready(*old(cs)) && passes_weakly(*old(cs), b, a) ==> r is Ok,
        r matches Ok(bit) ==> (final(cs).is_constant_bit(bit) == !one_is_variable(*old(cs), a, b)),
        r matches Ok(bit) ==> final(cs).adds_bit(*old(cs), bit, final(cs).bit(bit)),
        r matches Ok(bit) ==> (weakly_comparable(old(cs).num(b), old(cs).num(a)) ==> final(cs).bit(bit) == (old(cs).num(b) < (old(cs).num(a) + 1) % modulus())),
        r is Ok ==> (constraints_hold(*final(cs)) == (constraints_hold(*old(cs))
            && weakly_comparable(old(cs).num(b), old(cs).num(a)))),
{
    num_is_cmp(cs, a, b, Ordering::Greater, true)
}

/// A boolean variable that says whether `a` is below `b`; the system stays
/// satisfied only if the gadgets accept the operands.
pub(crate) fn is_below(cs: &mut Constraints, a: Num, b: Num) -> (r: Result<Bit, SynthesisError>)
    requires
        old(cs).has_num(a),
        old(cs).has_num(b),
    ensures
        ready(*old(cs)) && passes_strictly(*old(cs), a, b) ==> r is Ok,
        r matches Ok(bit) ==> (final(cs).is_constant_bit(bit) == !one_is_variable(*old(cs), a, b)),
        r matches Ok(bit) ==> final(cs).adds_bit(*old(cs), bit, final(cs).bit(bit)),
        r matches Ok(bit) ==> (strictly_comparable(old(cs).num(a), old(cs).num(b)) ==> final(cs).bit(bit) == (old(cs).num(a) < old(cs).num(b))),
        r is Ok ==> (constraints_hold(*final(cs)) == (constraints_hold(*old(cs))
            && strictly_comparable(old(cs).num(a), old(cs).num(b)))),
{
    num_is_cmp(cs, a, b, Ordering::Less, false)
}

/// A boolean variable that says whether `a` is above `b`; the system stays
/// satisfied only if the gadgets accept the operands.
pub(crate) fn is_above(cs: &mut Constraints, a: Num, b: Num) -> (r: Result<Bit, SynthesisError>)
    requires
        old(cs).has_num(a),
        old(cs).has_num(b),
    ensures
        ready(*old(cs)) && passes_strictly(*old(cs), b, a) ==> r is Ok,
        r matches Ok(bit) ==> (final(cs).is_constant_bit(bit) == !one_is_variable(*old(cs), a, b)),
        r matches Ok(bit) ==> final(cs).adds_bit(*old(cs), bit, final(cs).bit(bit)),
        r matches Ok(bit) ==> (strictly_comparable(old(cs).num(a), old(cs).num(b)) ==> final(cs).bit(bit) == (old(cs).num(b) < old(cs).num(a))),
        r is Ok ==> (constraints_hold(*final(cs)) == (constraints_hold(*old(cs))
            && strictly_comparable(old(cs).num(a), old(cs).num(b)))),
{
    num_is_cmp(cs, a, b, Ordering::Greater, false)
}

} // verus!
