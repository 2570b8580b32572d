//! Where the keys of the two circuits are kept.

use vstd::prelude::*;
use vstd::string::StringExecFns;

verus! {

/// The directory of the keys of the circuit that proves a board well-formed.
pub const BOARD_DECLARATION_KEYS: &'static str = "keys/board_declaration";

/// The directory of the keys of the circuit that proves what a cell holds.
pub const FIELD_DECLARATION_KEYS: &'static str = "keys/field_declaration";

/// The file of the verifying key under the directory `path`.
pub fn verifying_key_file(path: &str) -> (file: String)
    ensures
        file@ == path@ + "/vk.bin"@,
{
    String::from_str(path).concat("/vk.bin")
}

/// The file of the proving key under the directory `path`.
pub fn proving_key_file(path: &str) -> (file: String)
    ensures
        file@ == path@ + "/pk.bin"@,
{
    String::from_str(path).concat("/pk.bin")
}

} // verus!
