//! The address space: segments of cells that each hold a field element or an
//! address, and one validation rule per segment that every write into the
//! segment is put to.

use crate::errors::MemoryError;
use crate::felt::Felt;
use crate::relocatable::{MaybeRelocatable, Relocatable, Value};
use crate::ecdsa::Signature;
use crate::signature::{check_signature_rule, register, SignatureRule, SignatureRuleView};
use std::collections::HashMap;
use vstd::prelude::*;

verus! {

broadcast use vstd::std_specs::hash::group_hash_axioms;

/// What a validation rule is, apart from how it is stored.
pub enum ValidationRuleView {
    Signature(SignatureRuleView),
}

/// A rule that memory puts every write into one segment to, by the kind of
/// builtin that owns the segment.
#[derive(Debug, PartialEq, Eq)]
pub enum ValidationRule {
    Signature(SignatureRule),
}

impl View for ValidationRule {
    type V = ValidationRuleView;

    open spec fn view(&self) -> ValidationRuleView {
        match self {
            ValidationRule::Signature(rule) => ValidationRuleView::Signature(rule@),
        }
    }
}

impl ValidationRuleView {
    /// The rule once `signature` was registered for `address`: a signature
    /// rule takes it unless the address has one.
    pub open spec fn with_signature(self, address: Relocatable, signature: Seq<u8>) -> Self {
        match self {
            ValidationRuleView::Signature(rule) => ValidationRuleView::Signature(
                SignatureRuleView {
                    signatures: register(rule.signatures, address, signature),
                    ..rule
                },
            ),
        }
    }
}

/// The verdict of `rule` on a write to `address`, with the cells as they are
/// after the write.
pub open spec fn check_rule(
    cells: Map<Relocatable, Value>,
    rule: ValidationRuleView,
    address: Value,
) -> Result<(), MemoryError> {
    match rule {
        ValidationRuleView::Signature(rule) => check_signature_rule(cells, rule, address),
    }
}

impl ValidationRule {
    /// The rule once `signature` was registered for `address`.
    pub fn with_signature(self, address: Relocatable, signature: Signature) -> (rule:
        ValidationRule)
        ensures
            rule@ == self@.with_signature(address, signature@),
    {
        match self {
            ValidationRule::Signature(rule) => ValidationRule::Signature(
                rule.with_signature(address, signature),
            ),
        }
    }

    /// Checks the write to `address` by the rule of the builtin.
    pub fn validate(&self, memory: &Memory, address: &MaybeRelocatable) -> (verdict: Result<
        Vec<MaybeRelocatable>,
        MemoryError,
    >)
        ensures
            match verdict {
                Ok(validated) => validated@.len() == 0 && check_rule(
                    memory@.cells,
                    self@,
                    address@,
                ) is Ok,
                Err(e) => check_rule(memory@.cells, self@, address@) == Err::<(), MemoryError>(e),
            },
    {
        match self {
            ValidationRule::Signature(rule) => rule.validate(memory, address),
        }
    }
}

/// What a memory is, apart from how it is stored.
pub struct MemoryView {
    /// The written cells and what they hold.
    pub cells: Map<Relocatable, Value>,
    /// How many segments are allocated: those with index 0 up to this number.
    pub num_segments: nat,
    /// The validation rule of each segment that has one.
    pub rules: Map<usize, ValidationRuleView>,
}

impl MemoryView {
    /// The verdict on a write to `address` that left the cells as they are
    /// here: that of the rule of the segment, and acceptance without a rule.
    pub open spec fn check_write(self, address: Relocatable) -> Result<(), MemoryError> {
        if address.segment_index >= 0 && self.rules.contains_key(address.segment_index as usize) {
            check_rule(
                self.cells,
                self.rules[address.segment_index as usize],
                Value::RelocatableValue(address),
            )
        } else {
            Ok(())
        }
    }

    /// The memory after `value` was stored at `address`.
    pub open spec fn store(self, address: Relocatable, value: Value) -> MemoryView {
        MemoryView { cells: self.cells.insert(address, value), ..self }
    }

    /// The memory once `signature` was registered for `address` with the
    /// rule of `segment`. Without a rule there, nothing changes.
    pub open spec fn register_signature(
        self,
        segment: usize,
        address: Relocatable,
        signature: Seq<u8>,
    ) -> MemoryView {
        if self.rules.contains_key(segment) {
            MemoryView {
                rules: self.rules.insert(
                    segment,
                    self.rules[segment].with_signature(address, signature),
                ),
                ..self
            }
        } else {
            self
        }
    }

    /// What becomes of the memory when `value` is written to `address`, and
    /// how the write ends.
    ///
    /// A write outside the allocated segments changes nothing. Any other
    /// write is put to the rule of its segment, which sees the cells as they
    /// are with the value in place. The write lasts only if the rule accepts
    /// it: a rejected write leaves the memory as it was.
    pub open spec fn insert(self, address: Relocatable, value: Value) -> (
        MemoryView,
        Result<(), MemoryError>,
    ) {
        if address.segment_index < 0 {
            (self, Err(MemoryError::AddressInTemporarySegment(address.segment_index)))
        } else if address.segment_index >= self.num_segments {
            (
                self,
                Err(
                    MemoryError::UnallocatedSegment(
                        address.segment_index,
                        self.num_segments as usize,
                    ),
                ),
            )
        } else {
            let stored = self.store(address, value);
            match stored.check_write(address) {
                Ok(()) => (stored, Ok(())),
                Err(e) => (self, Err(e)),
            }
        }
    }
}

/// The memory of the machine.
#[derive(Debug, PartialEq, Eq)]
pub struct Memory {
    data: Vec<HashMap<usize, MaybeRelocatable>>,
    validation_rules: HashMap<usize, ValidationRule>,
}

impl View for Memory {
    type V = MemoryView;

    closed spec fn view(&self) -> MemoryView {
        MemoryView {
            cells: Map::new(
                |a: Relocatable|
                    0 <= a.segment_index < self.data@.len()
                        && self.data@[a.segment_index as int]@.contains_key(a.offset),
                |a: Relocatable| self.data@[a.segment_index as int]@[a.offset]@,
            ),
            num_segments: self.data@.len(),
            rules: Map::new(
                |s: usize| self.validation_rules@.contains_key(s),
                |s: usize| self.validation_rules@[s]@,
            ),
        }
    }
}

impl Memory {
    /// A memory without segments and without rules.
    pub fn new() -> (memory: Memory)
        ensures
            memory@.cells == Map::<Relocatable, Value>::empty(),
            memory@.num_segments == 0,
            memory@.rules == Map::<usize, ValidationRuleView>::empty(),
    {
        let memory = Memory { data: Vec::new(), validation_rules: HashMap::new() };
        assert(memory@.cells =~= Map::<Relocatable, Value>::empty());
        assert(memory@.rules =~= Map::<usize, ValidationRuleView>::empty());
        memory
    }

    /// Every written cell lies in an allocated segment.
    pub proof fn lemma_cells_allocated(&self, address: Relocatable)
        requires
            self@.cells.contains_key(address),
        ensures
            0 <= address.segment_index < self@.num_segments,
    {
    }

    /// The number of allocated segments.
    pub fn num_segments(&self) -> (n: usize)
        ensures
            n == self@.num_segments,
    {
        self.data.len()
    }

    /// Allocates one more segment, empty, behind those there are.
    pub fn add_segment(&mut self)
        ensures
            final(self)@ == (MemoryView { num_segments: old(self)@.num_segments + 1, ..old(self)@ }),
    {
        self.data.push(HashMap::new());
        assert(self@.cells =~= old(self)@.cells);
        assert(self@.rules =~= old(self)@.rules);
    }

    /// What the cell at `key` holds, if it was written.
    pub fn get(&self, key: &Relocatable) -> (value: Option<&MaybeRelocatable>)
        ensures
            match value {
                Some(v) => self@.cells.contains_key(*key) && self@.cells[*key] == v@,
                None => !self@.cells.contains_key(*key),
            },
    {
        if key.segment_index < 0 {
            return None;
        }
        let segment = key.segment_index as usize;
        if segment >= self.data.len() {
            return None;
        }
        self.data[segment].get(&key.offset)
    }

    /// The field element in the cell at `key`, if the cell holds one.
    pub fn get_integer(&self, key: &Relocatable) -> (felt: Option<&Felt>)
        ensures
            match felt {
                Some(f) => self@.cells.contains_key(*key) && self@.cells[*key] == Value::Int(f@),
                None => !self@.cells.contains_key(*key) || self@.cells[*key] is RelocatableValue,
            },
    {
        match self.get(key) {
            Some(value) => value.get_int_ref(),
            None => None,
        }
    }

    /// The address in the cell at `key`, if the cell holds one.
    pub fn get_relocatable(&self, key: &Relocatable) -> (address: Option<Relocatable>)
        ensures
            match address {
                Some(a) => self@.cells.contains_key(*key) && self@.cells[*key]
                    == Value::RelocatableValue(a),
                None => !self@.cells.contains_key(*key) || self@.cells[*key] is Int,
            },
    {
        match self.get(key) {
            Some(value) => value.get_relocatable(),
            None => None,
        }
    }

    /// Writes `val` to the cell at `key` if the rule of the segment accepts
    /// the write. A rejected write leaves the cell as it was.
    pub fn insert(&mut self, key: &Relocatable, val: &MaybeRelocatable) -> (written: Result<
        (),
        MemoryError,
    >)
        ensures
            (final(self)@, written) == old(self)@.insert(*key, val@),
    {
        if key.segment_index < 0 {
            return Err(MemoryError::AddressInTemporarySegment(key.segment_index));
        }
        let segment = key.segment_index as usize;
        if segment >= self.data.len() {
            return Err(MemoryError::UnallocatedSegment(key.segment_index, self.data.len()));
        }
        let before = self.data[segment].insert(key.offset, val.clone());
        assert(self@.cells =~= old(self)@.cells.insert(*key, val@));
        assert(self@.rules =~= old(self)@.rules);
        let verdict = match self.validation_rules.get(&segment) {
            Some(rule) => match rule.validate(self, &MaybeRelocatable::RelocatableValue(*key)) {
                Ok(_) => Ok(()),
                Err(e) => Err(e),
            },
            None => Ok(()),
        };
        if verdict.is_err() {
            match before {
                Some(value) => {
                    self.data[segment].insert(key.offset, value);
                },
                None => {
                    self.data[segment].remove(&key.offset);
                },
            }
            assert(self@.cells =~= old(self)@.cells);
            assert(self@.rules =~= old(self)@.rules);
        }
        verdict
    }

    /// Registers `signature` for `address` with the rule of the segment, if
    /// the segment has a rule.
    pub fn add_signature(&mut self, segment_index: usize, address: Relocatable, signature: Signature)
        ensures
            final(self)@ == old(self)@.register_signature(segment_index, address, signature@),
    {
        match self.validation_rules.remove(&segment_index) {
            Some(rule) => {
                self.validation_rules.insert(
                    segment_index,
                    rule.with_signature(address, signature),
                );
                assert(self@.rules =~= old(self)@.rules.insert(
                    segment_index,
                    old(self)@.rules[segment_index].with_signature(address, signature@),
                ));
            },
            None => {
                assert(self@.rules =~= old(self)@.rules);
            },
        }
        assert(self@.cells =~= old(self)@.cells);
    }

    /// Makes `rule` the validation rule of the segment, in place of the one
    /// it had.
    pub fn add_validation_rule(&mut self, segment_index: usize, rule: ValidationRule)
        ensures
            final(self)@ == (MemoryView {
                rules: old(self)@.rules.insert(segment_index, rule@),
                ..old(self)@
            }),
    {
        self.validation_rules.insert(segment_index, rule);
        assert(self@.cells =~= old(self)@.cells);
        assert(self@.rules =~= old(self)@.rules.insert(segment_index, rule@));
    }
}

} // verus!
