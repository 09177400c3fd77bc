//! Addresses and the values that a memory cell can hold.

use crate::felt::Felt;
use vstd::prelude::*;
use vstd::std_specs::convert::FromSpecImpl;

verus! {

/// An address: a segment and an offset into it. Two addresses are the same
/// when both parts are.
#[derive(Debug, Clone, Copy, PartialEq, Eq, Hash, Structural)]
pub struct Relocatable {
    pub segment_index: isize,
    pub offset: usize,
}

impl Relocatable {
    /// The address `n` cells further on in the same segment.
    pub open spec fn spec_add(self, n: int) -> Relocatable {
        Relocatable { segment_index: self.segment_index, offset: (self.offset + n) as usize }
    }

    /// The address `n` cells further on, unless its offset does not fit.
    pub fn add_usize(&self, n: usize) -> (sum: Option<Relocatable>)
        ensures
            sum == if self.offset + n <= usize::MAX {
                Some(self.spec_add(n as int))
            } else {
                None
            },
    {
        match self.offset.checked_add(n) {
            Some(offset) => Some(Relocatable { segment_index: self.segment_index, offset }),
            None => None,
        }
    }

    /// The address `n` cells back, unless that is before the segment's start.
    pub fn sub_usize(&self, n: usize) -> (diff: Option<Relocatable>)
        ensures
            diff == if n <= self.offset {
                Some(self.spec_add(-(n as int)))
            } else {
                None
            },
    {
        if n <= self.offset {
            Some(Relocatable { segment_index: self.segment_index, offset: self.offset - n })
        } else {
            None
        }
    }
}

impl From<(isize, usize)> for Relocatable {
    fn from(pair: (isize, usize)) -> (address: Relocatable) {
        Relocatable { segment_index: pair.0, offset: pair.1 }
    }
}

impl FromSpecImpl<(isize, usize)> for Relocatable {
    open spec fn obeys_from_spec() -> bool {
        true
    }

    open spec fn from_spec(pair: (isize, usize)) -> Relocatable {
        Relocatable { segment_index: pair.0, offset: pair.1 }
    }
}

/// What a value is, apart from how it is stored: a field element, given by
/// its shortest big-endian bytes, or an address.
pub enum Value {
    Int(Seq<u8>),
    RelocatableValue(Relocatable),
}

/// The content of a memory cell or of a variable: a field element or an
/// address.
#[derive(Debug, PartialEq, Eq)]
pub enum MaybeRelocatable {
    Int(Felt),
    RelocatableValue(Relocatable),
}

impl View for MaybeRelocatable {
    type V = Value;

    open spec fn view(&self) -> Value {
        match self {
            MaybeRelocatable::Int(felt) => Value::Int(felt@),
            MaybeRelocatable::RelocatableValue(address) => Value::RelocatableValue(*address),
        }
    }
}

impl MaybeRelocatable {
    /// The field element, if the value is one.
    pub fn get_int_ref(&self) -> (felt: Option<&Felt>)
        ensures
            match felt {
                Some(f) => self@ == Value::Int(f@),
                None => self@ is RelocatableValue,
            },
    {
        match self {
            MaybeRelocatable::Int(felt) => Some(felt),
            MaybeRelocatable::RelocatableValue(_) => None,
        }
    }

    /// The address, if the value is one.
    pub fn get_relocatable(&self) -> (address: Option<Relocatable>)
        ensures
            match address {
                Some(a) => self@ == Value::RelocatableValue(a),
                None => self@ is Int,
            },
    {
        match self {
            MaybeRelocatable::Int(_) => None,
            MaybeRelocatable::RelocatableValue(address) => Some(*address),
        }
    }
}

impl Clone for MaybeRelocatable {
    fn clone(&self) -> (copy: Self)
        ensures
            copy@ == self@,
    {
        match self {
            MaybeRelocatable::Int(felt) => MaybeRelocatable::Int(felt.clone()),
            MaybeRelocatable::RelocatableValue(address) => MaybeRelocatable::RelocatableValue(
                *address,
            ),
        }
    }
}

impl From<(isize, usize)> for MaybeRelocatable {
    fn from(pair: (isize, usize)) -> (value: MaybeRelocatable) {
        MaybeRelocatable::RelocatableValue(Relocatable { segment_index: pair.0, offset: pair.1 })
    }
}

impl FromSpecImpl<(isize, usize)> for MaybeRelocatable {
    open spec fn obeys_from_spec() -> bool {
        true
    }

    open spec fn from_spec(pair: (isize, usize)) -> MaybeRelocatable {
        MaybeRelocatable::RelocatableValue(Relocatable { segment_index: pair.0, offset: pair.1 })
    }
}

impl From<Felt> for MaybeRelocatable {
    fn from(felt: Felt) -> (value: MaybeRelocatable) {
        MaybeRelocatable::Int(felt)
    }
}

impl FromSpecImpl<Felt> for MaybeRelocatable {
    open spec fn obeys_from_spec() -> bool {
        true
    }

    open spec fn from_spec(felt: Felt) -> MaybeRelocatable {
        MaybeRelocatable::Int(felt)
    }
}

} // verus!
