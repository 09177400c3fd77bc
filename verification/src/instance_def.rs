//! The layout parameters of the signature builtin.

use vstd::prelude::*;

verus! {

/// How a layout places the signature builtin: one instance every `ratio`
/// steps.
#[derive(Debug, Clone, Copy, PartialEq, Eq)]
pub struct EcdsaInstanceDef {
    pub ratio: u32,
    pub repetitions: u32,
    pub height: u32,
    pub n_hash_bits: u32,
}

impl EcdsaInstanceDef {
    /// The usual parameters with the given ratio.
    pub fn new(ratio: u32) -> (def: EcdsaInstanceDef)
        ensures
            def == (EcdsaInstanceDef { ratio, repetitions: 1, height: 256, n_hash_bits: 251 }),
    {
        EcdsaInstanceDef { ratio, repetitions: 1, height: 256, n_hash_bits: 251 }
    }
}

impl Default for EcdsaInstanceDef {
    fn default() -> (def: EcdsaInstanceDef)
        ensures
            def == (EcdsaInstanceDef {
                ratio: 512,
                repetitions: 1,
                height: 256,
                n_hash_bits: 251,
            }),
    {
        EcdsaInstanceDef { ratio: 512, repetitions: 1, height: 256, n_hash_bits: 251 }
    }
}

} // verus!
