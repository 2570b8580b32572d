//! A rank-one constraint system together with the variables allocated in it.
//!
//! The system and its variables belong to the arkworks crates and are opaque
//! to the verifier. This module names what they hold (the value of every
//! variable, which of them are constants, whether every constraint recorded
//! so far is met by those values, and whether the system is ready to take
//! more) and gives each gadget that the circuits use a contract over those
//! names: what it records, and when it succeeds. The contracts in this
//! module are trusted, not proved.

use ark_bls12_381::Fr;
use ark_crypto_primitives::crh::sha256::constraints::Sha256Gadget;
use ark_crypto_primitives::crh::sha256::digest::Digest;
use ark_crypto_primitives::crh::sha256::Sha256;
use ark_r1cs_std::alloc::AllocVar;
use ark_r1cs_std::boolean::Boolean;
use ark_r1cs_std::eq::EqGadget;
use ark_r1cs_std::fields::fp::FpVar;
use ark_r1cs_std::select::CondSelectGadget;
use ark_r1cs_std::uint8::UInt8;
use ark_r1cs_std::ToBytesGadget;
use ark_relations::r1cs::ConstraintSystem;
use ark_relations::r1cs::ConstraintSystemRef;
use ark_relations::r1cs::SynthesisError;
use vstd::prelude::*;

verus! {

/// The order of the scalar field of BLS12-381, in which the circuits compute.
pub open spec fn modulus() -> int {
    52435875175126190479447740508185965837690552500527637822603658699938581184513int
}

/// Half of the largest field element: the greatest value that the ordering
/// gadgets accept as an operand.
pub open spec fn half_modulus() -> int {
    26217937587563095239723870254092982918845276250263818911301829349969290592256int
}

/// The number of bytes in the encoding of a field element.
pub const NUM_BYTES: usize = 32;

/// The number of bytes of a digest.
pub const DIGEST_BYTES: usize = 32;

/// The error of the arkworks crates for a failed synthesis.
#[verifier::external_type_specification]
#[verifier::external_body]
pub struct ExSynthesisError(SynthesisError);

/// A field-element variable of a constraint system, by its place among the
/// system's field-element variables.
#[derive(Clone, Copy, Debug, PartialEq, Eq, Structural)]
pub struct Num(pub usize);

/// A boolean variable of a constraint system, by its place among the
/// system's boolean variables.
#[derive(Clone, Copy, Debug, PartialEq, Eq, Structural)]
pub struct Bit(pub usize);

/// A byte variable of a constraint system, by its place among the system's
/// byte variables.
#[derive(Clone, Copy, Debug, PartialEq, Eq, Structural)]
pub struct Byte(pub usize);

/// A constraint system of arkworks, the variables made in it so far, and one
/// SHA-256 gadget that hashes bytes of the system.
///
/// Verus cannot take the arkworks types, whose bounds are traits of arkworks,
/// so the struct is opaque to it and is described by the names below. Every
/// variable is made by a function of this module, in the system of the
/// struct that it is made for, and is known to the circuits by its place
/// only: no variable of one system can be handed to another.
#[verifier::external_body]
pub struct Constraints {
    /// The system in which the variables live. A synthesizer that is handed a
    /// system by arkworks puts it here before any variable is made.
    pub system: ConstraintSystemRef<Fr>,
    pub(crate) nums: Vec<FpVar<Fr>>,
    pub(crate) bits: Vec<Boolean<Fr>>,
    pub(crate) bytes: Vec<UInt8<Fr>>,
    pub(crate) hasher: Sha256Gadget<Fr>,
}

/// Whether the values assigned to the system's variables meet every
/// constraint recorded so far. A system in setup mode assigns no values and
/// is never asked.
pub uninterp spec fn constraints_hold(cs: Constraints) -> bool;

/// The values that the synthesis gives the system's field-element variables,
/// each as the least non-negative integer of its residue class.
pub uninterp spec fn num_values(cs: Constraints) -> Seq<int>;

/// The places of those field-element variables that are constants.
pub uninterp spec fn num_constants(cs: Constraints) -> Set<int>;

/// The values of the system's boolean variables.
pub uninterp spec fn bit_values(cs: Constraints) -> Seq<bool>;

/// The values of the system's byte variables.
pub uninterp spec fn byte_values(cs: Constraints) -> Seq<u8>;

/// The values of the bytes fed to the system's hash gadget since it was last
/// reset.
pub uninterp spec fn hashed(cs: Constraints) -> Seq<u8>;

/// The values of the system's public variables, in the order in which they
/// were allocated: what a verifier is given for its public input.
pub uninterp spec fn public_values(cs: Constraints) -> Seq<int>;

/// Whether the system is there and in proving mode, so that it assigns a
/// value to every variable, and every variable of the struct and the state
/// of its hash gadget were made in it. On such a system the gadgets fail
/// only on what they are handed, never on the system.
pub uninterp spec fn ready(cs: Constraints) -> bool;

/// The places of those boolean variables that are constants.
pub uninterp spec fn bit_constants(cs: Constraints) -> Set<int>;

/// The places of those byte variables that have a constant among their
/// eight bits.
pub uninterp spec fn byte_constants(cs: Constraints) -> Set<int>;

/// The SHA-256 digest of `data`: what `Sha256::digest` returns for it. The
/// hash gadget of arkworks is the gadget of that function, and computes the
/// same digest in a circuit.
pub uninterp spec fn sha256(data: Seq<u8>) -> Seq<u8>;

/// Bit `index` of `byte`, counted from the lowest: zero or one.
pub open spec fn bit_of(byte: u8, index: u8) -> u8 {
    (byte >> index) & 1
}

/// The eight bits of `byte`, from the lowest up.
pub open spec fn byte_bits(byte: u8) -> Seq<int> {
    Seq::new(8, |i: int| bit_of(byte, i as u8) as int)
}

/// The bits of the bytes `bytes`, byte by byte and within each byte from the
/// lowest bit up.
pub open spec fn bits_of_bytes(bytes: Seq<u8>) -> Seq<int> {
    Seq::new(8 * bytes.len(), |k: int| bit_of(bytes[k / 8], (k % 8) as u8) as int)
}

/// The bits of some bytes and one more byte are the bits of the bytes
/// followed by the bits of that byte.
pub proof fn lemma_bits_of_one_more_byte(bytes: Seq<u8>, byte: u8)
    ensures
        bits_of_bytes(bytes.push(byte)) == bits_of_bytes(bytes) + byte_bits(byte),
{
    let longer = bits_of_bytes(bytes.push(byte));
    let joined = bits_of_bytes(bytes) + byte_bits(byte);
    assert(longer.len() == joined.len());
    assert forall|k: int| 0 <= k < longer.len() implies longer[k] == joined[k] by {
        if k < 8 * bytes.len() {
            assert(k / 8 < bytes.len());
        } else {
            assert(k / 8 == bytes.len());
            assert(k % 8 == k - 8 * bytes.len());
        }
    }
    assert(longer =~= joined);
}

/// The `len` low bytes of `value`, the lowest first.
pub open spec fn little_endian(value: int, len: nat) -> Seq<u8>
    decreases len,
{
    if len == 0 {
        Seq::<u8>::empty()
    } else {
        seq![(value % 256) as u8] + little_endian(value / 256, (len - 1) as nat)
    }
}

impl Constraints {
    /// Whether `n` is a variable of this system.
    pub open spec fn has_num(self, n: Num) -> bool {
        n.0 < num_values(self).len()
    }

    /// Whether `b` is a variable of this system.
    pub open spec fn has_bit(self, b: Bit) -> bool {
        b.0 < bit_values(self).len()
    }

    /// Whether `y` is a variable of this system.
    pub open spec fn has_byte(self, y: Byte) -> bool {
        y.0 < byte_values(self).len()
    }

    /// Whether the `count` bytes from `first` on are variables of this system.
    pub open spec fn has_bytes(self, first: Byte, count: int) -> bool {
        first.0 + count <= byte_values(self).len()
    }

    /// The value of `n`.
    pub open spec fn num(self, n: Num) -> int {
        num_values(self)[n.0 as int]
    }

    /// Whether `n` is a constant.
    pub open spec fn is_constant(self, n: Num) -> bool {
        num_constants(self).contains(n.0 as int)
    }

    /// The value of `b`.
    pub open spec fn bit(self, b: Bit) -> bool {
        bit_values(self)[b.0 as int]
    }

    /// Whether `b` is a constant.
    pub open spec fn is_constant_bit(self, b: Bit) -> bool {
        bit_constants(self).contains(b.0 as int)
    }

    /// Whether one of the bits of `y` is a constant.
    pub open spec fn has_constant_bit(self, y: Byte) -> bool {
        byte_constants(self).contains(y.0 as int)
    }

    /// The value of `y`.
    pub open spec fn byte(self, y: Byte) -> u8 {
        byte_values(self)[y.0 as int]
    }

    /// The values of the `count` bytes from `first` on.
    pub open spec fn bytes_from(self, first: Byte, count: int) -> Seq<u8> {
        byte_values(self).subrange(first.0 as int, first.0 + count)
    }

    /// The values of the bytes `handles`.
    pub open spec fn bytes_of(self, handles: Seq<Byte>) -> Seq<u8> {
        Seq::new(handles.len(), |i: int| self.byte(handles[i]))
    }

    /// Whether this system has every variable of `before`, with the same
    /// value and at the same place.
    pub open spec fn keeps(self, before: Constraints) -> bool {
        &&& num_values(before).len() <= num_values(self).len()
        &&& forall|i: int|
            0 <= i < num_values(before).len() ==> #[trigger] num_values(self)[i] == num_values(
                before,
            )[i]
        &&& forall|i: int|
            0 <= i < num_values(before).len() ==> (num_constants(before).contains(i)
                <==> #[trigger] num_constants(self).contains(i))
        &&& bit_values(before).len() <= bit_values(self).len()
        &&& forall|i: int|
            0 <= i < bit_values(before).len() ==> #[trigger] bit_values(self)[i] == bit_values(
                before,
            )[i]
        &&& byte_values(before).len() <= byte_values(self).len()
        &&& forall|i: int|
            0 <= i < byte_values(before).len() ==> #[trigger] byte_values(self)[i] == byte_values(
                before,
            )[i]
        &&& self.keeps_constants(before)
        &&& ready(before) ==> ready(self)
    }

    /// Whether every boolean and every byte variable of `before` is a
    /// constant, or has a constant bit, in this system exactly if it is in
    /// `before`.
    pub open spec fn keeps_constants(self, before: Constraints) -> bool {
        &&& forall|i: int|
            0 <= i < bit_values(before).len() ==> (bit_constants(before).contains(i)
                <==> #[trigger] bit_constants(self).contains(i))
        &&& forall|i: int|
            0 <= i < byte_values(before).len() ==> (byte_constants(before).contains(i)
                <==> #[trigger] byte_constants(self).contains(i))
    }

    /// Whether this system is `before` with nothing changed but what the
    /// constraints say.
    pub open spec fn same_variables(self, before: Constraints) -> bool {
        &&& num_values(self) == num_values(before)
        &&& num_constants(self) == num_constants(before)
        &&& bit_values(self) == bit_values(before)
        &&& byte_values(self) == byte_values(before)
        &&& hashed(self) == hashed(before)
        &&& public_values(self) == public_values(before)
        &&& bit_constants(self) == bit_constants(before)
        &&& byte_constants(self) == byte_constants(before)
        &&& ready(before) ==> ready(self)
    }

    /// Whether this system and `other` differ at most in their byte
    /// variables and in their constraints.
    pub open spec fn same_variables_but_bytes(self, other: Constraints) -> bool {
        &&& num_values(self) == num_values(other)
        &&& num_constants(self) == num_constants(other)
        &&& bit_values(self) == bit_values(other)
        &&& hashed(self) == hashed(other)
        &&& public_values(self) == public_values(other)
        &&& bit_constants(self) == bit_constants(other)
    }

    /// Whether this system is `before` with one more field-element variable,
    /// `n`, of value `value`, which is no public one, and no other change
    /// but to the constraints.
    pub open spec fn adds_num(self, before: Constraints, n: Num, value: int) -> bool {
        &&& self.gains_num(before, n, value)
        &&& public_values(self) == public_values(before)
    }

    /// Whether this system is `before` with one more field-element variable,
    /// `n`, of value `value`, which is a public one, and no other change but
    /// to the constraints.
    pub open spec fn adds_public_num(self, before: Constraints, n: Num, value: int) -> bool {
        &&& self.gains_num(before, n, value)
        &&& public_values(self) == public_values(before).push(value)
    }

    /// Whether the variables of this system are those of `before` and one
    /// more field-element variable, `n`, of value `value`.
    pub open spec fn gains_num(self, before: Constraints, n: Num, value: int) -> bool {
        &&& n.0 == num_values(before).len()
        &&& num_values(self) == num_values(before).push(value)
        &&& forall|i: int|
            0 <= i < num_values(before).len() ==> (num_constants(before).contains(i)
                <==> #[trigger] num_constants(self).contains(i))
        &&& bit_values(self) == bit_values(before)
        &&& byte_values(self) == byte_values(before)
        &&& hashed(self) == hashed(before)
        &&& bit_constants(self) == bit_constants(before)
        &&& byte_constants(self) == byte_constants(before)
        &&& ready(before) ==> ready(self)
    }

    /// Whether this system is `before` with one more boolean variable, `b`,
    /// of value `value`, and no other change but to the constraints.
    pub open spec fn adds_bit(self, before: Constraints, b: Bit, value: bool) -> bool {
        &&& b.0 == bit_values(before).len()
        &&& bit_values(self) == bit_values(before).push(value)
        &&& num_values(self) == num_values(before)
        &&& num_constants(self) == num_constants(before)
        &&& byte_values(self) == byte_values(before)
        &&& hashed(self) == hashed(before)
        &&& public_values(self) == public_values(before)
        &&& self.keeps_constants(before)
        &&& byte_constants(self) == byte_constants(before)
        &&& ready(before) ==> ready(self)
    }

    /// Whether this system is `before` with more byte variables, of values
    /// `values`, the first of them `first`, none of them public, and no
    /// other change but to the constraints.
    pub open spec fn adds_bytes(self, before: Constraints, first: Byte, values: Seq<u8>) -> bool {
        &&& self.gains_bytes(before, first, values)
        &&& public_values(self) == public_values(before)
    }

    /// Whether this system is `before` with one more byte variable, `y`, of
    /// value `value`, whose eight bits are public variables, the lowest
    /// first, and no other change but to the constraints.
    pub open spec fn adds_public_byte(self, before: Constraints, y: Byte, value: u8) -> bool {
        &&& self.gains_bytes(before, y, seq![value])
        &&& public_values(self) == public_values(before) + byte_bits(value)
    }

    /// Whether the variables of this system are those of `before` and more
    /// byte variables, of values `values`, the first of them `first`.
    pub open spec fn gains_bytes(self, before: Constraints, first: Byte, values: Seq<u8>) -> bool {
        &&& first.0 == byte_values(before).len()
        &&& byte_values(self) == byte_values(before) + values
        &&& num_values(self) == num_values(before)
        &&& num_constants(self) == num_constants(before)
        &&& bit_values(self) == bit_values(before)
        &&& hashed(self) == hashed(before)
        &&& bit_constants(self) == bit_constants(before)
        &&& self.keeps_constants(before)
        &&& ready(before) ==> ready(self)
    }
}

/// The digest of `data` under SHA-256, computed outside a circuit.
///
/// Calls `Sha256::digest` of the `sha2` crate, as arkworks re-exports it.
/// Trusted: the result is the digest, which has thirty-two bytes.
#[verifier::external_body]
pub(crate) fn sha256_digest(data: &Vec<u8>) -> (digest: Vec<u8>)
    ensures
        digest@ == sha256(data@),
        digest@.len() == DIGEST_BYTES,
{
    Sha256::digest(data.as_slice()).to_vec()
}

/// A fresh system in proving mode, with no variable and no constraint.
///
/// Calls `ConstraintSystem::new_ref`. Trusted: a system without constraints
/// is satisfied, and a new system is there and in proving mode.
#[verifier::external_body]
pub(crate) fn new_system() -> (cs: Constraints)
    ensures
        constraints_hold(cs),
        num_values(cs) == Seq::<int>::empty(),
        bit_values(cs) == Seq::<bool>::empty(),
        byte_values(cs) == Seq::<u8>::empty(),
        hashed(cs) == Seq::<u8>::empty(),
        public_values(cs) == Seq::<int>::empty(),
        ready(cs),
{
    Constraints {
        system: ConstraintSystem::new_ref(),
        nums: Vec::new(),
        bits: Vec::new(),
        bytes: Vec::new(),
        hasher: Sha256Gadget::default(),
    }
}

/// Whether the assigned values meet every constraint of the system.
///
/// Calls `ConstraintSystemRef::is_satisfied`, which fails on a system that
/// is not there or is in setup mode. Trusted: a ready system gives an
/// answer, and an answer is what `constraints_hold` names.
#[verifier::external_body]
pub(crate) fn system_is_satisfied(cs: &Constraints) -> (r: Result<bool, SynthesisError>)
    ensures
        ready(*cs) ==> r is Ok,
        r matches Ok(satisfied) ==> satisfied == constraints_hold(*cs),
{
    cs.system.is_satisfied()
}

/// The constant `value` as a field-element variable.
///
/// Calls `FpVar::new_constant`, which makes a constant without touching the
/// system and cannot fail. Trusted: the variable is a constant of that
/// value, and no constraint is recorded.
#[verifier::external_body]
pub(crate) fn new_constant_num(cs: &mut Constraints, value: u8) -> (r: Result<Num, SynthesisError>)
    ensures
        r is Ok,
        r matches Ok(n) ==> final(cs).adds_num(*old(cs), n, value as int) && final(cs).is_constant(n)
            && constraints_hold(*final(cs)) == constraints_hold(*old(cs)),
{
    let n = Num(cs.nums.len());
    cs.nums.push(FpVar::new_constant(cs.system.clone(), Fr::from(value))?);
    Ok(n)
}

/// A private field-element variable assigned `value`.
///
/// Calls `FpVar::new_witness`, which fails only where the system is not
/// there. Trusted: the variable is no constant, has that value, and no
/// constraint is recorded.
#[verifier::external_body]
pub(crate) fn new_witness_num(cs: &mut Constraints, value: u8) -> (r: Result<Num, SynthesisError>)
    ensures
        ready(*old(cs)) ==> r is Ok,
        r matches Ok(n) ==> final(cs).adds_num(*old(cs), n, value as int) && !final(cs).is_constant(n)
            && constraints_hold(*final(cs)) == constraints_hold(*old(cs)),
{
    let n = Num(cs.nums.len());
    cs.nums.push(FpVar::new_witness(cs.system.clone(), || Ok(Fr::from(value)))?);
    Ok(n)
}

/// A public field-element variable assigned `value`.
///
/// Calls `FpVar::new_input`, which fails only where the system is not
/// there. Trusted: the variable is no constant, has that value, comes after
/// the public variables allocated before it, and no constraint is recorded.
#[verifier::external_body]
pub(crate) fn new_input_num(cs: &mut Constraints, value: u8) -> (r: Result<Num, SynthesisError>)
    ensures
        ready(*old(cs)) ==> r is Ok,
        r matches Ok(n) ==> final(cs).adds_public_num(*old(cs), n, value as int) && !final(cs).is_constant(
            n,
        )
            && constraints_hold(*final(cs)) == constraints_hold(*old(cs)),
{
    let n = Num(cs.nums.len());
    cs.nums.push(FpVar::new_input(cs.system.clone(), || Ok(Fr::from(value)))?);
    Ok(n)
}

/// A private byte variable assigned `value`.
///
/// Calls `UInt8::new_witness`, which fails only where the system is not
/// there. Trusted: the variable has that value, none of its bits is a
/// constant, and the constraints recorded for its bits are met.
#[verifier::external_body]
pub(crate) fn new_witness_byte(cs: &mut Constraints, value: u8) -> (r: Result<Byte, SynthesisError>)
    ensures
        ready(*old(cs)) ==> r is Ok,
        r matches Ok(y) ==> final(cs).adds_bytes(*old(cs), y, seq![value]) && constraints_hold(
            *final(cs),
        ) == constraints_hold(*old(cs)),
        r matches Ok(y) ==> !final(cs).has_constant_bit(y),
{
    let y = Byte(cs.bytes.len());
    cs.bytes.push(UInt8::new_witness(cs.system.clone(), || Ok(value))?);
    Ok(y)
}

/// A public byte variable assigned `value`: eight public booleans, the
/// lowest bit first.
///
/// Calls `UInt8::new_input`, which fails only where the system is not
/// there. Trusted: the variable has that value, none of its bits is a
/// constant, the bits come after the public variables allocated before
/// them, and the constraints recorded for the bits are met.
#[verifier::external_body]
pub(crate) fn new_input_byte(cs: &mut Constraints, value: u8) -> (r: Result<Byte, SynthesisError>)
    ensures
        ready(*old(cs)) ==> r is Ok,
        r matches Ok(y) ==> final(cs).adds_public_byte(*old(cs), y, value) && constraints_hold(
            *final(cs),
        ) == constraints_hold(*old(cs)),
        r matches Ok(y) ==> !final(cs).has_constant_bit(y),
{
    let y = Byte(cs.bytes.len());
    cs.bytes.push(UInt8::new_input(cs.system.clone(), || Ok(value))?);
    Ok(y)
}

/// The constant `value` as a boolean variable.
///
/// Calls `Boolean::constant`. Trusted: the variable is a constant of that
/// value, and no constraint is recorded.
#[verifier::external_body]
pub(crate) fn constant_bit(cs: &mut Constraints, value: bool) -> (b: Bit)
    ensures
        final(cs).adds_bit(*old(cs), b, value),
        final(cs).is_constant_bit(b),
        constraints_hold(*final(cs)) == constraints_hold(*old(cs)),
{
    let b = Bit(cs.bits.len());
    cs.bits.push(Boolean::constant(value));
    b
}

/// The sum of `a` and `b` in the field.
///
/// Calls `+` on two `FpVar`s. Trusted: the result has the sum as its value,
/// is a constant only if both are, and no constraint is recorded.
#[verifier::external_body]
pub(crate) fn num_add(cs: &mut Constraints, a: Num, b: Num) -> (n: Num)
    requires
        old(cs).has_num(a),
        old(cs).has_num(b),
    ensures
        final(cs).adds_num(*old(cs), n, (old(cs).num(a) + old(cs).num(b)) % modulus()),
        final(cs).is_constant(n) == (old(cs).is_constant(a) && old(cs).is_constant(b)),
        constraints_hold(*final(cs)) == constraints_hold(*old(cs)),
{
    let n = Num(cs.nums.len());
    cs.nums.push(&cs.nums[a.0] + &cs.nums[b.0]);
    n
}

/// The difference of `a` and `b` in the field.
///
/// Calls `-` on two `FpVar`s. Trusted: the result has the difference as its
/// value, is a constant only if both are, and no constraint is recorded.
#[verifier::external_body]
pub(crate) fn num_sub(cs: &mut Constraints, a: Num, b: Num) -> (n: Num)
    requires
        old(cs).has_num(a),
        old(cs).has_num(b),
    ensures
        final(cs).adds_num(*old(cs), n, (old(cs).num(a) - old(cs).num(b)) % modulus()),
        final(cs).is_constant(n) == (old(cs).is_constant(a) && old(cs).is_constant(b)),
        constraints_hold(*final(cs)) == constraints_hold(*old(cs)),
{
    let n = Num(cs.nums.len());
    cs.nums.push(&cs.nums[a.0] - &cs.nums[b.0]);
    n
}

/// A boolean variable that says whether `a` and `b` have the same value.
///
/// Calls `FpVar::is_eq`, which fails only where the system is not there.
/// Trusted: the result has that value, is a constant only if both numbers
/// are, and the constraints recorded for it are met.
#[verifier::external_body]
pub(crate) fn num_is_eq(cs: &mut Constraints, a: Num, b: Num) -> (r: Result<Bit, SynthesisError>)
    requires
        old(cs).has_num(a),
        old(cs).has_num(b),
    ensures
        ready(*old(cs)) ==> r is Ok,
        r matches Ok(bit) ==> (final(cs).is_constant_bit(bit) == (old(cs).is_constant(a) && old(cs).is_constant(
            b,
        ))),
        r matches Ok(bit) ==> final(cs).adds_bit(*old(cs), bit, old(cs).num(a) == old(cs).num(b))
            && constraints_hold(*final(cs)) == constraints_hold(*old(cs)),
{
    let bit = Bit(cs.bits.len());
    cs.bits.push(cs.nums[a.0].is_eq(&cs.nums[b.0])?);
    Ok(bit)
}

/// Records that `a` and `b` have the same value.
///
/// Calls `FpVar::enforce_equal`, which records nothing when both are
/// constants and fails only where the system is not there. Trusted:
/// otherwise the system stays satisfied exactly if the two values are equal.
#[verifier::external_body]
pub(crate) fn num_enforce_equal(cs: &mut Constraints, a: Num, b: Num) -> (r: Result<
    (),
    SynthesisError,
>)
    requires
        old(cs).has_num(a),
        old(cs).has_num(b),
    ensures
        ready(*old(cs)) ==> r is Ok,
        r is Ok ==> final(cs).same_variables(*old(cs)) && (constraints_hold(*final(cs)) == (
        constraints_hold(*old(cs)) && (old(cs).num(a) == old(cs).num(b) || (old(cs).is_constant(a)
            && old(cs).is_constant(b))))),
{
    cs.nums[a.0].enforce_equal(&cs.nums[b.0])
}

/// The variable `a` if `cond` is true, `b` if not.
///
/// Calls `FpVar::conditionally_select`, which fails only where the system is
/// not there. Trusted: the result has the chosen value, is no constant where
/// neither number is, and the constraints recorded for it are met.
#[verifier::external_body]
pub(crate) fn num_select(cs: &mut Constraints, cond: Bit, a: Num, b: Num) -> (r: Result<
    Num,
    SynthesisError,
>)
    requires
        old(cs).has_bit(cond),
        old(cs).has_num(a),
        old(cs).has_num(b),
    ensures
        ready(*old(cs)) ==> r is Ok,
        r matches Ok(n) ==> (!old(cs).is_constant(a) && !old(cs).is_constant(b) ==> !final(cs).is_constant(
            n,
        )),
        r matches Ok(n) ==> final(cs).adds_num(
            *old(cs),
            n,
            if old(cs).bit(cond) {
                old(cs).num(a)
            } else {
                old(cs).num(b)
            },
        ) && constraints_hold(*final(cs)) == constraints_hold(*old(cs)),
{
    let n = Num(cs.nums.len());
    cs.nums.push(FpVar::conditionally_select(&cs.bits[cond.0], &cs.nums[a.0], &cs.nums[b.0])?);
    Ok(n)
}

/// The variable `a` if `cond` is true, `b` if not.
///
/// Calls `Boolean::conditionally_select`, which fails only where the system
/// is not there. Trusted: the result has the chosen value, is no constant
/// where neither of the two to choose from is, and the constraints recorded
/// for it are met.
#[verifier::external_body]
pub(crate) fn bit_select(cs: &mut Constraints, cond: Bit, a: Bit, b: Bit) -> (r: Result<
    Bit,
    SynthesisError,
>)
    requires
        old(cs).has_bit(cond),
        old(cs).has_bit(a),
        old(cs).has_bit(b),
    ensures
        ready(*old(cs)) ==> r is Ok,
        r matches Ok(bit) ==> (!old(cs).is_constant_bit(a) && !old(cs).is_constant_bit(b)
            ==> !final(cs).is_constant_bit(bit)),
        r matches Ok(bit) ==> final(cs).adds_bit(
            *old(cs),
            bit,
            if old(cs).bit(cond) {
                old(cs).bit(a)
            } else {
                old(cs).bit(b)
            },
        ) && constraints_hold(*final(cs)) == constraints_hold(*old(cs)),
{
    let bit = Bit(cs.bits.len());
    cs.bits.push(Boolean::conditionally_select(&cs.bits[cond.0], &cs.bits[a.0], &cs.bits[b.0])?);
    Ok(bit)
}

/// A boolean variable that is true if `a` or `b` is.
///
/// Calls `Boolean::or`, which fails only where the system is not there.
/// Trusted: the result has that value, is no constant where neither operand
/// is, and the constraints recorded for it are met.
#[verifier::external_body]
pub(crate) fn bit_or(cs: &mut Constraints, a: Bit, b: Bit) -> (r: Result<Bit, SynthesisError>)
    requires
        old(cs).has_bit(a),
        old(cs).has_bit(b),
    ensures
        ready(*old(cs)) ==> r is Ok,
        r matches Ok(bit) ==> (!old(cs).is_constant_bit(a) && !old(cs).is_constant_bit(b)
            ==> !final(cs).is_constant_bit(bit)),
        r matches Ok(bit) ==> final(cs).adds_bit(*old(cs), bit, old(cs).bit(a) || old(cs).bit(b))
            && constraints_hold(*final(cs)) == constraints_hold(*old(cs)),
{
    let bit = Bit(cs.bits.len());
    cs.bits.push(Boolean::or(&cs.bits[a.0], &cs.bits[b.0])?);
    Ok(bit)
}

/// A boolean variable that is true if `a` and `b` are.
///
/// Calls `Boolean::and`, which fails only where the system is not there.
/// Trusted: the result has that value, is no constant where neither operand
/// is, and the constraints recorded for it are met.
#[verifier::external_body]
pub(crate) fn bit_and(cs: &mut Constraints, a: Bit, b: Bit) -> (r: Result<Bit, SynthesisError>)
    requires
        old(cs).has_bit(a),
        old(cs).has_bit(b),
    ensures
        ready(*old(cs)) ==> r is Ok,
        r matches Ok(bit) ==> (!old(cs).is_constant_bit(a) && !old(cs).is_constant_bit(b)
            ==> !final(cs).is_constant_bit(bit)),
        r matches Ok(bit) ==> final(cs).adds_bit(*old(cs), bit, old(cs).bit(a) && old(cs).bit(b))
            && constraints_hold(*final(cs)) == constraints_hold(*old(cs)),
{
    let bit = Bit(cs.bits.len());
    cs.bits.push(Boolean::and(&cs.bits[a.0], &cs.bits[b.0])?);
    Ok(bit)
}

/// A boolean variable that is true if `a` is not.
///
/// Calls `Boolean::not`. Trusted: the result has that value, is a constant
/// exactly if the operand is, and no constraint is recorded.
#[verifier::external_body]
pub(crate) fn bit_not(cs: &mut Constraints, a: Bit) -> (bit: Bit)
    requires
        old(cs).has_bit(a),
    ensures
        final(cs).adds_bit(*old(cs), bit, !old(cs).bit(a)),
        final(cs).is_constant_bit(bit) == old(cs).is_constant_bit(a),
        constraints_hold(*final(cs)) == constraints_hold(*old(cs)),
{
    let bit = Bit(cs.bits.len());
    cs.bits.push(cs.bits[a.0].not());
    bit
}

/// Records that `a` and `b` have the same value.
///
/// Calls `Boolean::enforce_equal`, which fails on two unequal constants and
/// where the system is not there, and on nothing else. Trusted: the system
/// stays satisfied exactly if the two values are equal.
#[verifier::external_body]
pub(crate) fn bit_enforce_equal(cs: &mut Constraints, a: Bit, b: Bit) -> (r: Result<
    (),
    SynthesisError,
>)
    requires
        old(cs).has_bit(a),
        old(cs).has_bit(b),
    ensures
        ready(*old(cs)) && !(old(cs).is_constant_bit(a) && old(cs).is_constant_bit(b) && old(cs).bit(
            a,
        ) != old(cs).bit(b)) ==> r is Ok,
        r is Ok ==> final(cs).same_variables(*old(cs)) && (constraints_hold(*final(cs)) == (
        constraints_hold(*old(cs)) && old(cs).bit(a) == old(cs).bit(b))),
{
    cs.bits[a.0].enforce_equal(&cs.bits[b.0])
}

/// Records that `a` and `b` have the same value.
///
/// Calls `UInt8::enforce_equal`, which compares bit by bit and fails on two
/// unequal constant bits and where the system is not there, and on nothing
/// else. Trusted: the system stays satisfied exactly if the two values are
/// equal.
#[verifier::external_body]
pub(crate) fn byte_enforce_equal(cs: &mut Constraints, a: Byte, b: Byte) -> (r: Result<
    (),
    SynthesisError,
>)
    requires
        old(cs).has_byte(a),
        old(cs).has_byte(b),
    ensures
        ready(*old(cs)) && !(old(cs).has_constant_bit(a) && old(cs).has_constant_bit(b) && old(cs).byte(
            a,
        ) != old(cs).byte(b)) ==> r is Ok,
        r is Ok ==> final(cs).same_variables(*old(cs)) && (constraints_hold(*final(cs)) == (
        constraints_hold(*old(cs)) && old(cs).byte(a) == old(cs).byte(b))),
{
    cs.bytes[a.0].enforce_equal(&cs.bytes[b.0])
}

/// The thirty-two bytes that encode `a`, the lowest first; the result is the
/// first of them.
///
/// Calls `FpVar::to_bytes`, which fails only where the system is not there.
/// Trusted: the new bytes have the values of that encoding, and the
/// constraints recorded for them are met.
#[verifier::external_body]
pub(crate) fn num_to_bytes(cs: &mut Constraints, a: Num) -> (r: Result<Byte, SynthesisError>)
    requires
        old(cs).has_num(a),
    ensures
        ready(*old(cs)) ==> r is Ok,
        r matches Ok(first) ==> final(cs).adds_bytes(
            *old(cs),
            first,
            little_endian(old(cs).num(a), NUM_BYTES as nat),
        ) && constraints_hold(*final(cs)) == constraints_hold(*old(cs)),
{
    let first = Byte(cs.bytes.len());
    cs.bytes.extend(cs.nums[a.0].to_bytes()?);
    Ok(first)
}

/// Empties the hash gadget.
///
/// Calls `Sha256Gadget::default`. Trusted: the gadget has seen no byte.
#[verifier::external_body]
pub(crate) fn hasher_reset(cs: &mut Constraints)
    ensures
        hashed(*final(cs)) == Seq::<u8>::empty(),
        num_values(*final(cs)) == num_values(*old(cs)),
        num_constants(*final(cs)) == num_constants(*old(cs)),
        bit_values(*final(cs)) == bit_values(*old(cs)),
        byte_values(*final(cs)) == byte_values(*old(cs)),
        public_values(*final(cs)) == public_values(*old(cs)),
        bit_constants(*final(cs)) == bit_constants(*old(cs)),
        byte_constants(*final(cs)) == byte_constants(*old(cs)),
        ready(*old(cs)) ==> ready(*final(cs)),
        constraints_hold(*final(cs)) == constraints_hold(*old(cs)),
{
    cs.hasher = Sha256Gadget::default();
}

/// Feeds the bytes `data` to the hash gadget, in their order.
///
/// Calls `Sha256Gadget::update`, which fails only where the system is not
/// there. Trusted: the gadget has seen those bytes after the earlier ones,
/// and the constraints recorded are met.
#[verifier::external_body]
pub(crate) fn hasher_update(cs: &mut Constraints, data: &Vec<Byte>) -> (r: Result<
    (),
    SynthesisError,
>)
    requires
        forall|i: int| 0 <= i < data.len() ==> old(cs).has_byte(#[trigger] data[i]),
    ensures
        ready(*old(cs)) ==> r is Ok,
        r is Ok ==> bit_constants(*final(cs)) == bit_constants(*old(cs)),
        r is Ok ==> byte_constants(*final(cs)) == byte_constants(*old(cs)),
        r is Ok ==> (ready(*old(cs)) ==> ready(*final(cs))),
        r is Ok ==> hashed(*final(cs)) == hashed(*old(cs)) + old(cs).bytes_of(data@),
        r is Ok ==> num_values(*final(cs)) == num_values(*old(cs)),
        r is Ok ==> num_constants(*final(cs)) == num_constants(*old(cs)),
        r is Ok ==> bit_values(*final(cs)) == bit_values(*old(cs)),
        r is Ok ==> byte_values(*final(cs)) == byte_values(*old(cs)),
        r is Ok ==> public_values(*final(cs)) == public_values(*old(cs)),
        r is Ok ==> constraints_hold(*final(cs)) == constraints_hold(*old(cs)),
{
    let data: Vec<UInt8<Fr>> = data.iter().map(|y| cs.bytes[y.0].clone()).collect();
    cs.hasher.update(&data)
}

/// The digest of the bytes fed to the hash gadget, as thirty-two new byte
/// variables; the result is the first of them. The gadget is left empty.
///
/// Calls `Sha256Gadget::finalize`, which fails only where the system is not
/// there. Trusted: the new bytes have the values of
/// the SHA-256 digest of the bytes seen, the one that `Sha256::digest`
/// computes outside a circuit, which has thirty-two bytes, and the
/// constraints recorded are met; the system's bytes are held in a `Vec`, so
/// their number fits a `usize`.
#[verifier::external_body]
pub(crate) fn hasher_finalize(cs: &mut Constraints) -> (r: Result<Byte, SynthesisError>)
    ensures
        ready(*old(cs)) ==> r is Ok,
        r is Ok ==> bit_constants(*final(cs)) == bit_constants(*old(cs)),
        r is Ok ==> final(cs).keeps_constants(*old(cs)),
        r is Ok ==> (ready(*old(cs)) ==> ready(*final(cs))),
        r matches Ok(first) ==> first.0 == byte_values(*old(cs)).len(),
        r is Ok ==> byte_values(*final(cs)) == byte_values(*old(cs)) + sha256(hashed(*old(cs))),
        r is Ok ==> byte_values(*final(cs)).len() <= usize::MAX,
        r is Ok ==> sha256(hashed(*old(cs))).len() == DIGEST_BYTES,
        r is Ok ==> hashed(*final(cs)) == Seq::<u8>::empty(),
        r is Ok ==> num_values(*final(cs)) == num_values(*old(cs)),
        r is Ok ==> num_constants(*final(cs)) == num_constants(*old(cs)),
        r is Ok ==> bit_values(*final(cs)) == bit_values(*old(cs)),
        r is Ok ==> public_values(*final(cs)) == public_values(*old(cs)),
        r is Ok ==> constraints_hold(*final(cs)) == constraints_hold(*old(cs)),
{
    let first = Byte(cs.bytes.len());
    let digest = core::mem::take(&mut cs.hasher).finalize()?;
    cs.bytes.extend(digest.0);
    Ok(first)
}

impl Constraints {
    /// A fresh system in proving mode, with no variable and no constraint.
    pub fn new() -> (cs: Constraints)
        ensures
            constraints_hold(cs),
            num_values(cs) == Seq::<int>::empty(),
            bit_values(cs) == Seq::<bool>::empty(),
            byte_values(cs) == Seq::<u8>::empty(),
            hashed(cs) == Seq::<u8>::empty(),
            public_values(cs) == Seq::<int>::empty(),
            ready(cs),
    {
        new_system()
    }

    /// Whether the values assigned to the variables meet every constraint
    /// recorded so far. A ready system gives an answer; a system in setup
    /// mode, which assigns no values, gives an error.
    pub fn is_satisfied(&self) -> (r: Result<bool, SynthesisError>)
        ensures
            ready(*self) ==> r is Ok,
            r matches Ok(satisfied) ==> satisfied == constraints_hold(*self),
    {
        system_is_satisfied(self)
    }
}

} // verus!
