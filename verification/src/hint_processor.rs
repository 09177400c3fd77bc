//! What a hint brings along from the program: its code, and for each
//! identifier the code may name, where the identifier lives.

use crate::assoc::{
    first_wins, lemma_first_wins_absent, lemma_first_wins_first, lemma_first_wins_push,
    lemma_first_wins_update,
};
use crate::relocatable::Relocatable;
use crate::vm_core::RunContext;
use vstd::prelude::*;

verus! {

/// The register that a reference is relative to.
#[derive(Debug, Clone, Copy, PartialEq, Eq, Structural)]
pub enum Register {
    /// The allocation pointer.
    AP,
    /// The frame pointer.
    FP,
}

/// Where an identifier lives: so many cells from a register.
#[derive(Debug, Clone, Copy, PartialEq, Eq, Structural)]
pub struct HintReference {
    pub register: Register,
    pub offset: i32,
}

/// The segment that the registers point into.
pub const EXECUTION_SEGMENT: isize = 1;

/// The address that `reference` stands for when the registers are as in
/// `run_context`; none where that address would lie before the start of the
/// segment or beyond what an offset can hold.
pub open spec fn resolve(reference: HintReference, run_context: RunContext) -> Option<Relocatable> {
    let base: int = match reference.register {
        Register::AP => run_context.ap as int,
        Register::FP => run_context.fp as int,
    };
    if 0 <= base + reference.offset <= usize::MAX {
        Some(
            Relocatable {
                segment_index: EXECUTION_SEGMENT,
                offset: (base + reference.offset) as usize,
            },
        )
    } else {
        None
    }
}

/// The address that `reference` stands for.
pub fn compute_addr_from_reference(reference: &HintReference, run_context: &RunContext) -> (address:
    Option<Relocatable>)
    ensures
        address == resolve(*reference, *run_context),
{
    let base: usize = match reference.register {
        Register::AP => run_context.ap,
        Register::FP => run_context.fp,
    };
    let offset = if reference.offset >= 0 {
        base.checked_add(reference.offset as usize)
    } else {
        let back: i64 = -(reference.offset as i64);
        if back as u64 <= base as u64 {
            Some(base - back as usize)
        } else {
            None
        }
    };
    match offset {
        Some(offset) => Some(Relocatable { segment_index: EXECUTION_SEGMENT, offset }),
        None => None,
    }
}

/// The identifiers of a hint, each with its reference.
#[derive(Debug, PartialEq, Eq)]
pub struct IdsData {
    entries: Vec<(String, HintReference)>,
}

impl View for IdsData {
    type V = Map<Seq<char>, HintReference>;

    closed spec fn view(&self) -> Map<Seq<char>, HintReference> {
        first_wins(self.references())
    }
}

impl IdsData {
    spec fn references(&self) -> Seq<(Seq<char>, HintReference)> {
        Seq::new(self.entries@.len(), |i: int| (self.entries@[i].0@, self.entries@[i].1))
    }

    /// No identifiers.
    pub fn new() -> (ids: IdsData)
        ensures
            ids@ == Map::<Seq<char>, HintReference>::empty(),
    {
        IdsData { entries: Vec::new() }
    }

    fn position(&self, name: &String) -> (found: Option<usize>)
        ensures
            match found {
                Some(i) => i < self.references().len() && self.references()[i as int].0 == name@
                    && forall|j: int| 0 <= j < i ==> self.references()[j].0 != name@,
                None => forall|j: int|
                    0 <= j < self.references().len() ==> self.references()[j].0 != name@,
            },
    {
        let mut i: usize = 0;
        while i < self.entries.len()
            invariant
                i <= self.entries.len(),
                forall|j: int| 0 <= j < i ==> self.references()[j].0 != name@,
            decreases self.entries.len() - i,
        {
            if self.entries[i].0 == *name {
                return Some(i);
            }
            i += 1;
        }
        None
    }

    /// The reference of the identifier `name`.
    pub fn get(&self, name: &String) -> (reference: Option<HintReference>)
        ensures
            reference == if self@.contains_key(name@) {
                Some(self@[name@])
            } else {
                None
            },
    {
        match self.position(name) {
            Some(i) => {
                proof {
                    lemma_first_wins_first(self.references(), i as int);
                }
                Some(self.entries[i].1)
            },
            None => {
                proof {
                    lemma_first_wins_absent(self.references(), name@);
                }
                None
            },
        }
    }

    /// Gives the identifier `name` the reference `reference`, whether it is
    /// new or not.
    pub fn insert(&mut self, name: String, reference: HintReference)
        ensures
            final(self)@ == old(self)@.insert(name@, reference),
    {
        let ghost before = self.references();
        match self.position(&name) {
            Some(i) => {
                self.entries[i] = (name, reference);
                proof {
                    lemma_first_wins_update(before, i as int, reference);
                    assert(self.references() =~= before.update(
                        i as int,
                        (before[i as int].0, reference),
                    ));
                }
            },
            None => {
                self.entries.push((name, reference));
                proof {
                    lemma_first_wins_absent(before, name@);
                    lemma_first_wins_push(before, name@, reference);
                    assert(self.references() =~= before.push((name@, reference)));
                }
            },
        }
    }
}

/// The address of the identifier `name`, if it is known and resolves.
pub open spec fn resolve_identifier(
    ids: Map<Seq<char>, HintReference>,
    run_context: RunContext,
    name: Seq<char>,
) -> Option<Relocatable> {
    if ids.contains_key(name) {
        resolve(ids[name], run_context)
    } else {
        None
    }
}

/// What the program gives a hint: the code to run and the identifiers it
/// may use.
#[derive(Debug, PartialEq, Eq)]
pub struct HintProcessorData {
    pub code: String,
    pub ids_data: IdsData,
}

impl HintProcessorData {
    /// The data of a hint with the given code and identifiers.
    pub fn new(code: String, ids_data: IdsData) -> (data: HintProcessorData)
        ensures
            data.code == code,
            data.ids_data == ids_data,
    {
        HintProcessorData { code, ids_data }
    }

    /// The address of the identifier `name`, if it is known and resolves.
    pub fn get_address(&self, name: &String, run_context: &RunContext) -> (address: Option<
        Relocatable,
    >)
        ensures
            address == resolve_identifier(self.ids_data@, *run_context, name@),
    {
        match self.ids_data.get(name) {
            Some(reference) => compute_addr_from_reference(&reference, run_context),
            None => None,
        }
    }
}

} // verus!
