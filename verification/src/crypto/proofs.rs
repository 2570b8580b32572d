//! The public side of a proof: the values that a verifier checks a proof
//! against, in the order in which the circuits allocate their public
//! variables.

use crate::circuit::board_declaration_circuit::BoardDeclarationCircuit;
use crate::circuit::constraints::{bit_of, bits_of_bytes};
use crate::circuit::field_declaration_circuit::FieldDeclarationCircuit;
use crate::model::FieldState;
use vstd::prelude::*;

verus! {

/// The number of bytes of a commitment hash.
pub const HASH_BYTES: usize = 32;

/// The bits of the first thirty-two bytes of `hash`, byte by byte and within
/// each byte from the lowest bit up, followed by a zero for each bit of the
/// bytes after them.
pub open spec fn hash_bits(hash: Seq<u8>) -> Seq<u8> {
    Seq::new(
        8 * hash.len(),
        |k: int|
            if k < 8 * HASH_BYTES {
                bit_of(hash[k / 8], (k % 8) as u8)
            } else {
                0u8
            },
    )
}

/// The public input of a proof: field elements, each small enough for a
/// byte, in the order in which the verifier takes them.
#[derive(Clone, Debug)]
pub struct PublicInput(pub Vec<u8>);

impl View for PublicInput {
    type V = Seq<u8>;

    open spec fn view(&self) -> Seq<u8> {
        self.0@
    }
}

impl PublicInput {
    /// The public input that starts with a commitment hash: one element for
    /// each bit of the hash, byte by byte and within each byte from the
    /// lowest bit up.
    pub fn from(value: Vec<u8>) -> (input: PublicInput)
        requires
            value.len() >= HASH_BYTES,
            8 * value.len() <= usize::MAX,
        ensures
            input@ == hash_bits(value@),
    {
        let size = value.len();
        let mut elements: Vec<u8> = Vec::new();
        let mut n: usize = 0;
        while n < 8 * size
            invariant
                n <= 8 * size,
                8 * size <= usize::MAX,
                elements.len() == n,
                forall|k: int| 0 <= k < n ==> elements[k] == 0u8,
            decreases 8 * size - n,
        {
            elements.push(0);
            n += 1;
        }
        let mut i: usize = 0;
        while i < HASH_BYTES
            invariant
                i <= HASH_BYTES,
                size == value.len(),
                size >= HASH_BYTES,
                elements.len() == 8 * size,
                forall|k: int| 0 <= k < 8 * i ==> elements[k] == bit_of(value[k / 8], (k % 8) as u8),
                forall|k: int| 8 * i <= k < 8 * size ==> elements[k] == 0u8,
            decreases HASH_BYTES - i,
        {
            let mut j: u8 = 0;
            while j < 8
                invariant
                    j <= 8,
                    i < HASH_BYTES,
                    size == value.len(),
                    size >= HASH_BYTES,
                    elements.len() == 8 * size,
                    forall|k: int|
                        0 <= k < 8 * i + j ==> elements[k] == bit_of(value[k / 8], (k % 8) as u8),
                    forall|k: int| 8 * i + j <= k < 8 * size ==> elements[k] == 0u8,
                decreases 8 - j,
            {
                let byte = value[i];
                if (byte >> j) & 1 == 1 {
                    elements[i * 8 + j as usize] = 1;
                }
                assert((byte >> j) & 1 == 0 || (byte >> j) & 1 == 1) by (bit_vector);
                assert((8 * i + j) / 8 == i && (8 * i + j) % 8 == j);
                j += 1;
            }
            i += 1;
        }
        assert(elements@ =~= hash_bits(value@));
        PublicInput(elements)
    }

    /// The public input with `element` after the elements so far.
    pub fn add(self, element: u8) -> (input: PublicInput)
        ensures
            input@ == self@.push(element),
    {
        let mut elements = self.0;
        elements.push(element);
        PublicInput(elements)
    }
}

/// What a proof that a board is well-formed is checked against: the bits of
/// the commitment hash.
pub open spec fn board_declaration_values(hash: Seq<u8>) -> Seq<u8> {
    hash_bits(hash)
}

/// What a proof about a cell is checked against: the bits of the commitment
/// hash, then the cell's column, its row, and the number of the state.
pub open spec fn field_declaration_values(hash: Seq<u8>, x: u8, y: u8, state: FieldState) -> Seq<
    u8,
> {
    hash_bits(hash).push(x).push(y).push(state.code())
}

/// The bytes of `hash` in a vector.
fn hash_to_vec(hash: &[u8; 32]) -> (bytes: Vec<u8>)
    ensures
        bytes@ == hash@,
{
    let mut bytes: Vec<u8> = Vec::new();
    let mut i: usize = 0;
    while i < 32
        invariant
            i <= 32,
            bytes@ == hash@.take(i as int),
        decreases 32 - i,
    {
        bytes.push(hash[i]);
        assert(hash@.take(i as int + 1) =~= hash@.take(i as int).push(hash@[i as int]));
        i += 1;
    }
    assert(hash@.take(32) =~= hash@);
    bytes
}

/// The public input against which a proof that the board committed to by
/// `hash` is well-formed is verified.
pub fn board_declaration_input(hash: &[u8; 32]) -> (input: PublicInput)
    ensures
        input@ == board_declaration_values(hash@),
{
    PublicInput::from(hash_to_vec(hash))
}

/// The public input against which a proof that the cell `(x, y)` of the
/// board committed to by `hash` holds `state` is verified.
pub fn field_declaration_input(hash: &[u8; 32], x: u8, y: u8, state: FieldState) -> (input:
    PublicInput)
    ensures
        input@ == field_declaration_values(hash@, x, y, state),
{
    PublicInput::from(hash_to_vec(hash)).add(x).add(y).add(state.to_u8())
}

impl BoardDeclarationCircuit {
    /// The public input of this circuit.
    pub fn public_input(&self) -> (input: PublicInput)
        ensures
            input@ == board_declaration_values(self.hash@),
    {
        board_declaration_input(&self.hash)
    }
}

impl FieldDeclarationCircuit {
    /// The public input of this circuit.
    pub fn public_input(&self) -> (input: PublicInput)
        ensures
            input@ == field_declaration_values(
                self.hash@,
                self.field_x,
                self.field_y,
                self.field_state,
            ),
    {
        field_declaration_input(&self.hash, self.field_x, self.field_y, self.field_state)
    }
}

/// The elements `values` as integers.
pub open spec fn as_ints(values: Seq<u8>) -> Seq<int> {
    Seq::new(values.len(), |i: int| values[i] as int)
}

/// The public input against which a proof that a board is well-formed is
/// verified holds, in their order, the values of the public variables that
/// the circuit of the board allocates.
pub proof fn lemma_board_input_is_allocated(hash: Seq<u8>)
    requires
        hash.len() == HASH_BYTES,
    ensures
        as_ints(board_declaration_values(hash)) == bits_of_bytes(hash),
{
    assert(as_ints(board_declaration_values(hash)) =~= bits_of_bytes(hash));
}

/// The public input against which a proof about a cell is verified holds,
/// in their order, the values of the public variables that the circuit of
/// the cell allocates.
pub proof fn lemma_field_input_is_allocated(hash: Seq<u8>, x: u8, y: u8, state: FieldState)
    requires
        hash.len() == HASH_BYTES,
    ensures
        as_ints(field_declaration_values(hash, x, y, state)) == bits_of_bytes(hash).push(
            x as int,
        ).push(y as int).push(state.code() as int),
{
    assert(as_ints(field_declaration_values(hash, x, y, state)) =~= bits_of_bytes(hash).push(
        x as int,
    ).push(y as int).push(state.code() as int));
}

} // verus!
