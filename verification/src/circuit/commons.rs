//! What the two circuits share: the variables of a ship, and the hash that
//! binds a proof to a committed board.

use crate::circuit::constraints::{
    bit_values, bits_of_bytes, byte_enforce_equal, byte_values, constraints_hold, hashed,
    hasher_finalize, hasher_reset, hasher_update, lemma_bits_of_one_more_byte, little_endian,
    new_constant_num, new_input_byte, new_witness_byte, new_witness_num, num_constants,
    num_is_eq, num_to_bytes, num_values, public_values, ready, sha256, sha256_digest, Bit, Byte,
    Constraints, Num, DIGEST_BYTES, NUM_BYTES,
};
use crate::circuit::ordering::enforce_at_most;
use crate::model::{Direction, Ship};
use ark_relations::r1cs::SynthesisError;
use vstd::prelude::*;

verus! {

/// The number of salt bytes of a commitment.
pub const SALT_BYTES: usize = 32;

/// The bytes that stand for a ship in a commitment: column, row, size and
/// direction, one byte each.
pub open spec fn ship_encoding(ship: Ship) -> Seq<u8> {
    seq![ship.x, ship.y, ship.size, ship.direction.code()]
}

/// The bytes that stand for `ships` in a commitment: their encodings, one
/// after another.
pub open spec fn fleet_encoding(ships: Seq<Ship>) -> Seq<u8>
    decreases ships.len(),
{
    if ships.len() == 0 {
        Seq::<u8>::empty()
    } else {
        fleet_encoding(ships.drop_last()) + ship_encoding(ships.last())
    }
}

/// The bytes that are hashed to commit to `ships` under `salt`.
pub open spec fn commitment_input(ships: Seq<Ship>, salt: Seq<u8>) -> Seq<u8> {
    fleet_encoding(ships) + salt
}

/// The commitment to `ships` under `salt`: the SHA-256 digest of the ships'
/// bytes followed by the salt.
pub open spec fn commitment(ships: Seq<Ship>, salt: Seq<u8>) -> Seq<u8> {
    sha256(commitment_input(ships, salt))
}

/// Where a ship lies, in unbounded integers: what the variables of a ship
/// hold, whatever their values.
pub struct Placement {
    pub x: int,
    pub y: int,
    pub size: int,
    pub vertical: bool,
}

impl Ship {
    /// Where the ship lies.
    pub open spec fn placement(self) -> Placement {
        Placement {
            x: self.x as int,
            y: self.y as int,
            size: self.size as int,
            vertical: self.direction == Direction::Vertical,
        }
    }
}

/// The variables of one ship in a constraint system.
#[derive(Clone, Copy, Debug)]
pub struct ShipVars {
    pub x: Num,
    pub y: Num,
    pub size: Num,
    pub direction: Num,
    pub is_vertical: Bit,
}

impl ShipVars {
    /// Whether the five variables belong to `cs`.
    pub open spec fn within(self, cs: Constraints) -> bool {
        &&& cs.has_num(self.x)
        &&& cs.has_num(self.y)
        &&& cs.has_num(self.size)
        &&& cs.has_num(self.direction)
        &&& cs.has_bit(self.is_vertical)
    }

    /// Whether the variables belong to `cs` and none of the four numbers is a
    /// constant.
    pub open spec fn allocated(self, cs: Constraints) -> bool {
        &&& self.within(cs)
        &&& !cs.is_constant(self.x)
        &&& !cs.is_constant(self.y)
        &&& !cs.is_constant(self.size)
        &&& !cs.is_constant(self.direction)
    }

    /// Whether the variables belong to `cs`, the size is no constant, and the
    /// boolean says whether the direction is zero.
    pub open spec fn coherent(self, cs: Constraints) -> bool {
        &&& self.within(cs)
        &&& !cs.is_constant(self.size)
        &&& cs.bit(self.is_vertical) == (cs.num(self.direction) == 0)
    }

    /// Whether the variables belong to `cs`, none of the four numbers is a
    /// constant, and they hold `ship`.
    pub open spec fn models(self, cs: Constraints, ship: Ship) -> bool {
        &&& self.within(cs)
        &&& cs.num(self.x) == ship.x
        &&& cs.num(self.y) == ship.y
        &&& cs.num(self.size) == ship.size
        &&& cs.num(self.direction) == ship.direction.code()
        &&& cs.bit(self.is_vertical) == (ship.direction == Direction::Vertical)
        &&& !cs.is_constant(self.x)
        &&& !cs.is_constant(self.y)
        &&& !cs.is_constant(self.size)
        &&& !cs.is_constant(self.direction)
    }

    /// What the variables hold in `cs`.
    pub open spec fn placement(self, cs: Constraints) -> Placement {
        Placement {
            x: cs.num(self.x),
            y: cs.num(self.y),
            size: cs.num(self.size),
            vertical: cs.bit(self.is_vertical),
        }
    }

    /// The low bytes of the four numbers: what the hash gadget is fed for
    /// this ship.
    pub open spec fn encoding(self, cs: Constraints) -> Seq<u8> {
        seq![
            (cs.num(self.x) % 256) as u8,
            (cs.num(self.y) % 256) as u8,
            (cs.num(self.size) % 256) as u8,
            (cs.num(self.direction) % 256) as u8,
        ]
    }

    /// Variables that hold a ship keep holding it while the system grows.
    pub proof fn lemma_models_is_kept(self, before: Constraints, after: Constraints, ship: Ship)
        requires
            self.models(before, ship),
            after.keeps(before),
        ensures
            self.models(after, ship),
    {
    }

    /// Variables that hold a ship are fed to the hash gadget as the ship's
    /// bytes.
    pub proof fn lemma_encoding_of_model(self, cs: Constraints, ship: Ship)
        requires
            self.models(cs, ship),
        ensures
            self.encoding(cs) == ship_encoding(ship),
    {
        assert(self.encoding(cs) =~= ship_encoding(ship));
    }
}

/// The bytes that the hash gadget is fed for the ships `vars`, one ship
/// after another.
pub open spec fn fleet_vars_encoding(cs: Constraints, vars: Seq<ShipVars>) -> Seq<u8>
    decreases vars.len(),
{
    if vars.len() == 0 {
        Seq::<u8>::empty()
    } else {
        fleet_vars_encoding(cs, vars.drop_last()) + vars.last().encoding(cs)
    }
}

/// Variables that hold ships are fed to the hash gadget as those ships'
/// bytes.
pub proof fn lemma_fleet_encoding_of_models(cs: Constraints, vars: Seq<ShipVars>, ships: Seq<Ship>)
    requires
        vars.len() == ships.len(),
        forall|k: int| 0 <= k < vars.len() ==> (#[trigger] vars[k]).models(cs, ships[k]),
    ensures
        fleet_vars_encoding(cs, vars) == fleet_encoding(ships),
    decreases vars.len(),
{
    if vars.len() > 0 {
        lemma_fleet_encoding_of_models(cs, vars.drop_last(), ships.drop_last());
        vars.last().lemma_encoding_of_model(cs, ships.last());
    }
}

/// Allocates the private variables of `ship`, records that its direction is
/// at most one, and derives the boolean that says whether it is vertical.
/// On a ready system this succeeds for every ship.
pub fn create_ship_vars(ship: &Ship, cs: &mut Constraints) -> (r: Result<ShipVars, SynthesisError>)
    ensures
        ready(*old(cs)) ==> r is Ok,
        r matches Ok(vars) ==> vars.models(*final(cs), *ship),
        r is Ok ==> final(cs).keeps(*old(cs)),
        r is Ok ==> public_values(*final(cs)) == public_values(*old(cs)),
        r is Ok ==> byte_values(*final(cs)) == byte_values(*old(cs)),
        r is Ok ==> hashed(*final(cs)) == hashed(*old(cs)),
        r is Ok ==> constraints_hold(*final(cs)) == constraints_hold(*old(cs)),
{
    let direction = new_witness_num(cs, ship.direction.to_u8())?;
    let one = new_constant_num(cs, 1)?;
    enforce_at_most(cs, direction, one)?;
    let zero = new_constant_num(cs, 0)?;
    let is_vertical = num_is_eq(cs, direction, zero)?;
    let x = new_witness_num(cs, ship.x)?;
    let y = new_witness_num(cs, ship.y)?;
    let size = new_witness_num(cs, ship.size)?;
    Ok(ShipVars { x, y, size, direction, is_vertical })
}

/// The lowest byte of the encoding of `var`, as a byte variable. On a ready
/// system this succeeds for every variable.
pub fn cast_fp_var_to_uint8(var: Num, cs: &mut Constraints) -> (r: Result<Byte, SynthesisError>)
    requires
        old(cs).has_num(var),
    ensures
        ready(*old(cs)) ==> r is Ok,
        r matches Ok(low) ==> final(cs).has_byte(low) && final(cs).byte(low) == (old(cs).num(var)
            % 256) as u8,
        r is Ok ==> final(cs).keeps(*old(cs)),
        r is Ok ==> public_values(*final(cs)) == public_values(*old(cs)),
        r is Ok ==> old(cs).same_variables_but_bytes(*final(cs)),
        r is Ok ==> constraints_hold(*final(cs)) == constraints_hold(*old(cs)),
{
    let ghost value = cs.num(var);
    let first = num_to_bytes(cs, var)?;
    proof {
        let encoded = little_endian(value, NUM_BYTES as nat);
        assert(encoded.len() > 0 && encoded[0] == (value % 256) as u8) by {
            reveal_with_fuel(little_endian, 2);
        }
    }
    Ok(first)
}

/// The digest, as thirty-two byte variables, of the ships' low bytes followed
/// by the salt bytes: for each ship its column, row, size and direction. On
/// a ready system this succeeds for all ships and every salt.
pub fn compute_hash(ships_vars: &Vec<ShipVars>, salt_vars: &Vec<Byte>, cs: &mut Constraints) -> (r:
    Result<Vec<Byte>, SynthesisError>)
    requires
        forall|k: int| 0 <= k < ships_vars.len() ==> (#[trigger] ships_vars[k]).within(*old(cs)),
        forall|i: int| 0 <= i < salt_vars.len() ==> old(cs).has_byte(#[trigger] salt_vars[i]),
    ensures
        ready(*old(cs)) ==> r is Ok,
        r matches Ok(digest) ==> digest.len() == DIGEST_BYTES && (forall|i: int|
            0 <= i < digest.len() ==> final(cs).has_byte(#[trigger] digest[i])) && final(cs).bytes_of(
            digest@,
        ) == sha256(
            fleet_vars_encoding(*old(cs), ships_vars@) + old(cs).bytes_of(salt_vars@),
        ),
        r is Ok ==> final(cs).keeps(*old(cs)),
        r is Ok ==> public_values(*final(cs)) == public_values(*old(cs)),
        r is Ok ==> num_values(*final(cs)) == num_values(*old(cs)),
        r is Ok ==> num_constants(*final(cs)) == num_constants(*old(cs)),
        r is Ok ==> bit_values(*final(cs)) == bit_values(*old(cs)),
        r is Ok ==> constraints_hold(*final(cs)) == constraints_hold(*old(cs)),
{
    let ghost before = *cs;
    hasher_reset(cs);
    let mut k: usize = 0;
    while k < ships_vars.len()
        invariant
            k <= ships_vars.len(),
            forall|j: int| 0 <= j < ships_vars.len() ==> (#[trigger] ships_vars[j]).within(before),
            cs.keeps(before),
            ready(*old(cs)) ==> ready(*cs),
            public_values(*cs) == public_values(before),
            num_values(*cs) == num_values(before),
            num_constants(*cs) == num_constants(before),
            bit_values(*cs) == bit_values(before),
            constraints_hold(*cs) == constraints_hold(before),
            hashed(*cs) == fleet_vars_encoding(before, ships_vars@.take(k as int)),
        decreases ships_vars.len() - k,
    {
        let vars = ships_vars[k];
        let x = cast_fp_var_to_uint8(vars.x, cs)?;
        let y = cast_fp_var_to_uint8(vars.y, cs)?;
        let size = cast_fp_var_to_uint8(vars.size, cs)?;
        let direction = cast_fp_var_to_uint8(vars.direction, cs)?;
        let mut data: Vec<Byte> = Vec::new();
        data.push(x);
        data.push(y);
        data.push(size);
        data.push(direction);
        assert(cs.bytes_of(data@) =~= vars.encoding(before));
        hasher_update(cs, &data)?;
        proof {
            let taken = ships_vars@.take(k as int + 1);
            assert(taken.drop_last() =~= ships_vars@.take(k as int));
            assert(taken.last() == vars);
        }
        k += 1;
    }
    assert(ships_vars@.take(k as int) =~= ships_vars@);
    assert(cs.bytes_of(salt_vars@) =~= before.bytes_of(salt_vars@));
    hasher_update(cs, salt_vars)?;
    let ghost fed = *cs;
    let first = hasher_finalize(cs)?;
    let mut digest: Vec<Byte> = Vec::new();
    let mut i: usize = 0;
    while i < DIGEST_BYTES
        invariant
            i <= DIGEST_BYTES,
            digest.len() == i,
            first.0 + DIGEST_BYTES <= usize::MAX,
            forall|j: int| 0 <= j < i ==> (#[trigger] digest[j]).0 == first.0 + j,
        decreases DIGEST_BYTES - i,
    {
        digest.push(Byte(first.0 + i));
        i += 1;
    }
    assert(cs.bytes_of(digest@) =~= sha256(hashed(fed)));
    Ok(digest)
}

/// Whether `vars` hold `ships`, ship by ship.
pub open spec fn fleet_models(cs: Constraints, vars: Seq<ShipVars>, ships: Seq<Ship>) -> bool {
    &&& vars.len() == ships.len()
    &&& forall|k: int| 0 <= k < vars.len() ==> (#[trigger] vars[k]).models(cs, ships[k])
}

/// Variables that hold ships keep holding them while the system grows.
pub proof fn lemma_fleet_models_is_kept(
    before: Constraints,
    after: Constraints,
    vars: Seq<ShipVars>,
    ships: Seq<Ship>,
)
    requires
        fleet_models(before, vars, ships),
        after.keeps(before),
    ensures
        fleet_models(after, vars, ships),
{
    assert forall|k: int| 0 <= k < vars.len() implies (#[trigger] vars[k]).models(after, ships[k]) by {
        vars[k].lemma_models_is_kept(before, after, ships[k]);
    }
}

/// Variables that hold ships are coherent and lie where the ships lie.
pub proof fn lemma_fleet_models_placements(cs: Constraints, vars: Seq<ShipVars>, ships: Seq<Ship>)
    requires
        fleet_models(cs, vars, ships),
    ensures
        forall|k: int|
            0 <= k < vars.len() ==> (#[trigger] vars[k]).placement(cs) == ships[k].placement()
                && vars[k].coherent(cs),
{
    assert forall|k: int| 0 <= k < vars.len() implies (#[trigger] vars[k]).placement(cs)
        == ships[k].placement() && vars[k].coherent(cs) by {
        assert(vars[k].models(cs, ships[k]));
    }
}

/// Allocates the private variables of each ship of `ships`, in their order.
pub(crate) fn create_fleet_vars(ships: &[Ship; 15], cs: &mut Constraints) -> (r: Result<
    Vec<ShipVars>,
    SynthesisError,
>)
    ensures
        ready(*old(cs)) ==> r is Ok,
        r matches Ok(vars) ==> fleet_models(*final(cs), vars@, ships@),
        r is Ok ==> final(cs).keeps(*old(cs)),
        r is Ok ==> public_values(*final(cs)) == public_values(*old(cs)),
        r is Ok ==> byte_values(*final(cs)) == byte_values(*old(cs)),
        r is Ok ==> hashed(*final(cs)) == hashed(*old(cs)),
        r is Ok ==> constraints_hold(*final(cs)) == constraints_hold(*old(cs)),
{
    let ghost before = *cs;
    let mut vars: Vec<ShipVars> = Vec::new();
    let mut k: usize = 0;
    while k < 15
        invariant
            k <= 15,
            vars.len() == k,
            forall|j: int| 0 <= j < k ==> (#[trigger] vars[j]).models(*cs, ships@[j]),
            cs.keeps(before),
            ready(*old(cs)) ==> ready(*cs),
            public_values(*cs) == public_values(before),
            byte_values(*cs) == byte_values(before),
            hashed(*cs) == hashed(before),
            constraints_hold(*cs) == constraints_hold(before),
        decreases 15 - k,
    {
        let ghost earlier = *cs;
        let ship_vars = create_ship_vars(&ships[k], cs)?;
        proof {
            assert forall|j: int| 0 <= j < k implies (#[trigger] vars[j]).models(*cs, ships@[j]) by {
                vars[j].lemma_models_is_kept(earlier, *cs, ships@[j]);
            }
        }
        vars.push(ship_vars);
        k += 1;
    }
    Ok(vars)
}

/// Allocates one byte variable for each byte of `data`, in their order:
/// public ones if `public`, whose bits are public variables, in the order
/// of the bytes and within each byte from the lowest bit up; private ones if
/// not.
pub(crate) fn create_byte_vars(data: &[u8; 32], public: bool, cs: &mut Constraints) -> (r: Result<
    Vec<Byte>,
    SynthesisError,
>)
    ensures
        ready(*old(cs)) ==> r is Ok,
        r matches Ok(vars) ==> vars.len() == data@.len() && (forall|i: int|
            0 <= i < vars.len() ==> final(cs).has_byte(#[trigger] vars[i]) && !final(cs).has_constant_bit(
                vars[i],
            )) && final(cs).bytes_of(vars@) == data@,
        r is Ok ==> final(cs).keeps(*old(cs)),
        r is Ok ==> num_values(*final(cs)) == num_values(*old(cs)),
        r is Ok ==> num_constants(*final(cs)) == num_constants(*old(cs)),
        r is Ok ==> bit_values(*final(cs)) == bit_values(*old(cs)),
        r is Ok ==> hashed(*final(cs)) == hashed(*old(cs)),
        r is Ok ==> public_values(*final(cs)) == if public {
            public_values(*old(cs)) + bits_of_bytes(data@)
        } else {
            public_values(*old(cs))
        },
        r is Ok ==> constraints_hold(*final(cs)) == constraints_hold(*old(cs)),
{
    let ghost before = *cs;
    let mut vars: Vec<Byte> = Vec::new();
    let mut i: usize = 0;
    proof {
        assert(data@.take(0) =~= Seq::<u8>::empty());
        assert(bits_of_bytes(Seq::<u8>::empty()) =~= Seq::<int>::empty());
        assert(public_values(before) + Seq::<int>::empty() =~= public_values(before));
    }
    while i < 32
        invariant
            i <= 32,
            vars.len() == i,
            forall|j: int|
                0 <= j < i ==> cs.has_byte(#[trigger] vars[j]) && cs.byte(vars[j]) == data@[j]
                    && !cs.has_constant_bit(vars[j]),
            cs.keeps(before),
            ready(*old(cs)) ==> ready(*cs),
            num_values(*cs) == num_values(before),
            num_constants(*cs) == num_constants(before),
            bit_values(*cs) == bit_values(before),
            hashed(*cs) == hashed(before),
            public_values(*cs) == if public {
                public_values(before) + bits_of_bytes(data@.take(i as int))
            } else {
                public_values(before)
            },
            constraints_hold(*cs) == constraints_hold(before),
        decreases 32 - i,
    {
        proof {
            lemma_bits_of_one_more_byte(data@.take(i as int), data@[i as int]);
            assert(data@.take(i as int + 1) =~= data@.take(i as int).push(data@[i as int]));
        }
        let var = if public {
            new_input_byte(cs, data[i])?
        } else {
            new_witness_byte(cs, data[i])?
        };
        vars.push(var);
        i += 1;
    }
    assert(cs.bytes_of(vars@) =~= data@);
    assert(data@.take(32) =~= data@);
    Ok(vars)
}

/// Records that the bytes `left` have the values of the bytes `right`, one
/// by one. Where there is no byte nothing is recorded, and nothing can fail;
/// on a ready system nothing fails either where no byte of `left` has a
/// constant bit.
pub(crate) fn enforce_bytes_equal(left: &Vec<Byte>, right: &Vec<Byte>, cs: &mut Constraints) -> (r: Result<
    (),
    SynthesisError,
>)
    requires
        left.len() == right.len(),
        forall|i: int| 0 <= i < left.len() ==> old(cs).has_byte(#[trigger] left[i]),
        forall|i: int| 0 <= i < right.len() ==> old(cs).has_byte(#[trigger] right[i]),
    ensures
        left.len() == 0 ==> r is Ok,
        ready(*old(cs)) && (forall|i: int|
            0 <= i < left.len() ==> !old(cs).has_constant_bit(#[trigger] left[i])) ==> r is Ok,
        r is Ok ==> final(cs).same_variables(*old(cs)),
        r is Ok ==> (constraints_hold(*final(cs)) == (constraints_hold(*old(cs)) && old(cs).bytes_of(
            left@,
        ) == old(cs).bytes_of(right@))),
{
    let ghost before = *cs;
    let mut i: usize = 0;
    while i < left.len()
        invariant
            i <= left.len(),
            left.len() == right.len(),
            forall|j: int| 0 <= j < left.len() ==> before.has_byte(#[trigger] left[j]),
            forall|j: int| 0 <= j < right.len() ==> before.has_byte(#[trigger] right[j]),
            before == *old(cs),
            cs.same_variables(before),
            ready(*old(cs)) ==> ready(*cs),
            constraints_hold(*cs) == (constraints_hold(before) && forall|j: int|
                0 <= j < i ==> before.byte(#[trigger] left[j]) == before.byte(right[j])),
        decreases left.len() - i,
    {
        byte_enforce_equal(cs, left[i], right[i])?;
        i += 1;
    }
    proof {
        let l = before.bytes_of(left@);
        let r = before.bytes_of(right@);
        if forall|j: int| 0 <= j < left.len() ==> before.byte(#[trigger] left[j]) == before.byte(
            right[j],
        ) {
            assert(l =~= r);
        }
        if l == r {
            assert forall|j: int| 0 <= j < left.len() implies before.byte(#[trigger] left[j])
                == before.byte(right[j]) by {
                assert(l[j] == r[j]);
            }
        }
    }
    Ok(())
}

/// The part that both circuits begin with: allocates the ships and the salt
/// in private and the hash in public, hashes the ships' bytes followed by the
/// salt, and records that the digest is the public hash. The bits of the
/// hash are the only public variables allocated.
pub(crate) fn bind_commitment(ships: &[Ship; 15], salt: &[u8; 32], hash: &[u8; 32], cs: &mut Constraints) -> (r:
    Result<Vec<ShipVars>, SynthesisError>)
    ensures
        ready(*old(cs)) ==> r is Ok,
        r matches Ok(vars) ==> fleet_models(*final(cs), vars@, ships@),
        r is Ok ==> final(cs).keeps(*old(cs)),
        r is Ok ==> public_values(*final(cs)) == public_values(*old(cs)) + bits_of_bytes(hash@),
        r is Ok ==> (constraints_hold(*final(cs)) == (constraints_hold(*old(cs)) && hash@
            == commitment(ships@, salt@))),
{
    let ghost before = *cs;
    let ships_vars = create_fleet_vars(ships, cs)?;
    let ghost with_ships = *cs;
    let salt_vars = create_byte_vars(salt, false, cs)?;
    let hash_vars = create_byte_vars(hash, true, cs)?;
    let ghost allocated = *cs;
    proof {
        assert forall|k: int| 0 <= k < ships_vars.len() implies (#[trigger] ships_vars[k]).models(
            allocated,
            ships@[k],
        ) by {
            ships_vars[k].lemma_models_is_kept(with_ships, allocated, ships@[k]);
        }
        lemma_fleet_encoding_of_models(allocated, ships_vars@, ships@);
        assert(allocated.bytes_of(salt_vars@) =~= salt@);
    }
    let digest = compute_hash(&ships_vars, &salt_vars, cs)?;
    proof {
        assert(cs.bytes_of(hash_vars@) =~= hash@);
    }
    enforce_bytes_equal(&hash_vars, &digest, cs)?;
    Ok(ships_vars)
}

/// The commitment to `ships` under `salt`: the SHA-256 digest of the four
/// bytes of each ship, in their order, followed by the salt.
pub fn compute_commitment(ships: &[Ship; 15], salt: &[u8; 32]) -> (hash: [u8; 32])
    ensures
        hash@ == commitment(ships@, salt@),
{
    let mut input: Vec<u8> = Vec::new();
    let mut k: usize = 0;
    while k < 15
        invariant
            k <= 15,
            input@ == fleet_encoding(ships@.take(k as int)),
        decreases 15 - k,
    {
        let ship = ships[k];
        input.push(ship.x);
        input.push(ship.y);
        input.push(ship.size);
        input.push(ship.direction.to_u8());
        proof {
            let taken = ships@.take(k as int + 1);
            assert(taken.drop_last() =~= ships@.take(k as int));
            assert(taken.last() == ship);
            assert(input@ =~= fleet_encoding(taken.drop_last()) + ship_encoding(ship));
        }
        k += 1;
    }
    assert(ships@.take(15) =~= ships@);
    let mut i: usize = 0;
    while i < 32
        invariant
            i <= 32,
            input@ == fleet_encoding(ships@) + salt@.take(i as int),
        decreases 32 - i,
    {
        input.push(salt[i]);
        assert(salt@.take(i as int + 1) =~= salt@.take(i as int).push(salt@[i as int]));
        assert(input@ =~= fleet_encoding(ships@) + salt@.take(i as int + 1));
        i += 1;
    }
    assert(salt@.take(32) =~= salt@);
    let digest = sha256_digest(&input);
    let mut hash: [u8; 32] = [0u8; 32];
    let mut j: usize = 0;
    while j < 32
        invariant
            j <= 32,
            digest@.len() == 32,
            forall|n: int| 0 <= n < j ==> hash@[n] == digest@[n],
        decreases 32 - j,
    {
        hash[j] = digest[j];
        j += 1;
    }
    assert(hash@ =~= digest@);
    hash
}

} // verus!
