//! The signature builtin: a registry of signatures by public key cell, the
//! validation rule that checks a signature once key and message are both in
//! memory, and the runner with its cost accounting and stack handling.

use crate::assoc::{first_wins, lemma_first_wins_absent, lemma_first_wins_first, lemma_first_wins_push};
use crate::ecdsa::{ecdsa_verifies, ecdsa_verify, is_sec1_public_key, sec1_public_key_parses, Signature};
use crate::errors::{MemoryError, RunnerError, RunnerErrorView};
use crate::instance_def::EcdsaInstanceDef;
use crate::math_utils::{ceil_div, div_ceil, isize_to_usize, mod_floor};
use crate::memory::{Memory, MemoryView, ValidationRule, ValidationRuleView};
use crate::memory_segments::MemorySegmentManager;
use crate::relocatable::{MaybeRelocatable, Relocatable, Value};
use crate::vm_core::VirtualMachine;
use vstd::prelude::*;

verus! {

/// The registry once `signature` was registered for `address`: the first
/// registration for an address stays, a later one changes nothing.
pub open spec fn register(
    signatures: Map<Relocatable, Seq<u8>>,
    address: Relocatable,
    signature: Seq<u8>,
) -> Map<Relocatable, Seq<u8>> {
    if signatures.contains_key(address) {
        signatures
    } else {
        signatures.insert(address, signature)
    }
}

/// The signatures registered so far, by the address of the public key cell.
/// The first registration for an address stays; later ones are ignored.
#[derive(Debug, PartialEq, Eq)]
pub struct SignatureRegistry {
    entries: Vec<(Relocatable, Signature)>,
}

impl View for SignatureRegistry {
    type V = Map<Relocatable, Seq<u8>>;

    closed spec fn view(&self) -> Map<Relocatable, Seq<u8>> {
        first_wins(self.registrations())
    }
}

impl SignatureRegistry {
    /// The registrations in the order they were made.
    pub closed spec fn registrations(&self) -> Seq<(Relocatable, Seq<u8>)> {
        Seq::new(self.entries@.len(), |i: int| (self.entries@[i].0, self.entries@[i].1@))
    }

    /// A registry without signatures.
    pub fn new() -> (registry: SignatureRegistry)
        ensures
            registry@ == Map::<Relocatable, Seq<u8>>::empty(),
    {
        SignatureRegistry { entries: Vec::new() }
    }

    /// The signature registered for `address`.
    pub fn get(&self, address: &Relocatable) -> (found: Option<&Signature>)
        ensures
            match found {
                Some(signature) => self@.contains_key(*address) && self@[*address]
                    == signature@,
                None => !self@.contains_key(*address),
            },
    {
        let mut i: usize = 0;
        while i < self.entries.len()
            invariant
                i <= self.entries.len(),
                forall|j: int| 0 <= j < i ==> self.registrations()[j].0 != *address,
            decreases self.entries.len() - i,
        {
            if self.entries[i].0 == *address {
                proof {
                    lemma_first_wins_first(self.registrations(), i as int);
                }
                return Some(&self.entries[i].1);
            }
            i += 1;
        }
        proof {
            lemma_first_wins_absent(self.registrations(), *address);
        }
        None
    }

    /// Registers `signature` for `address`, unless the address has one.
    pub fn insert_if_absent(&mut self, address: Relocatable, signature: Signature)
        ensures
            final(self)@ == register(old(self)@, address, signature@),
    {
        if self.get(&address).is_none() {
            let ghost before = self.registrations();
            self.entries.push((address, signature));
            proof {
                lemma_first_wins_push(before, address, signature@);
                assert(self.registrations() =~= before.push((address, signature@)));
            }
        }
    }
}

impl Clone for SignatureRegistry {
    fn clone(&self) -> (copy: Self)
        ensures
            copy@ == self@,
    {
        let mut entries: Vec<(Relocatable, Signature)> = Vec::new();
        let mut i: usize = 0;
        while i < self.entries.len()
            invariant
                i <= self.entries.len(),
                entries@.len() == i,
                forall|j: int|
                    0 <= j < i ==> entries@[j].0 == self.entries@[j].0 && entries@[j].1@
                        == self.entries@[j].1@,
            decreases self.entries.len() - i,
        {
            entries.push((self.entries[i].0, self.entries[i].1.clone()));
            i += 1;
        }
        let copy = SignatureRegistry { entries };
        assert(copy.registrations() =~= self.registrations());
        copy
    }
}

/// What a signature rule is, apart from how it is stored.
pub struct SignatureRuleView {
    pub cells_per_instance: nat,
    pub signatures: Map<Relocatable, Seq<u8>>,
}

/// The bytes of the field element in the cell at `address`, if the cell
/// holds one.
pub open spec fn cell_bytes(cells: Map<Relocatable, Value>, address: Relocatable) -> Option<
    Seq<u8>,
> {
    if cells.contains_key(address) {
        match cells[address] {
            Value::Int(bytes) => Some(bytes),
            Value::RelocatableValue(_) => None,
        }
    } else {
        None
    }
}

/// The public key cell and the message cell that a write to `address` asks
/// to check, in that order; none while the other cell of the pair is empty.
///
/// Offset 0 of an instance is the public key, offset 1 the message. A write
/// to the key looks for the message after it, a write to the message for the
/// key before it.
pub open spec fn signature_pair(
    cells: Map<Relocatable, Value>,
    cells_per_instance: nat,
    address: Relocatable,
) -> Option<(Relocatable, Relocatable)> {
    if address.offset as nat % cells_per_instance == 0 && address.offset < usize::MAX
        && cells.contains_key(address.spec_add(1)) {
        Some((address, address.spec_add(1)))
    } else if address.offset as nat % cells_per_instance == 1 && address.offset > 0
        && cells.contains_key(address.spec_add(-1)) {
        Some((address.spec_add(-1), address))
    } else {
        None
    }
}

/// The verdict on a pair of which it is known whether the key parses and,
/// where a signature is registered for it, whether that signature verifies
/// the message. A key that does not parse is reported before a signature
/// that is missing.
pub open spec fn spec_signature_verdict(key_parses: bool, verified: Option<bool>) -> Result<
    (),
    MemoryError,
> {
    if !key_parses {
        Err(MemoryError::MalformedPublicKey)
    } else {
        match verified {
            None => Err(MemoryError::MissingSignature),
            Some(false) => Err(MemoryError::SignatureMismatch),
            Some(true) => Ok(()),
        }
    }
}

/// The verdict on a pair, from the answers about its key and signature:
/// whether the key parses, and whether the registered signature verifies the
/// message, `None` where none is registered.
pub fn signature_verdict(key_parses: bool, verified: Option<bool>) -> (verdict: Result<
    (),
    MemoryError,
>)
    ensures
        verdict == spec_signature_verdict(key_parses, verified),
{
    if !key_parses {
        return Err(MemoryError::MalformedPublicKey);
    }
    match verified {
        None => Err(MemoryError::MissingSignature),
        Some(false) => Err(MemoryError::SignatureMismatch),
        Some(true) => Ok(()),
    }
}

/// The verdict on a key cell and a message cell that are both written: both
/// must hold field elements, the key must parse, a signature must be
/// registered for the key's address, and it must verify the message.
pub open spec fn check_signature_pair(
    cells: Map<Relocatable, Value>,
    signatures: Map<Relocatable, Seq<u8>>,
    pubkey_addr: Relocatable,
    msg_addr: Relocatable,
) -> Result<(), MemoryError> {
    match (cell_bytes(cells, msg_addr), cell_bytes(cells, pubkey_addr)) {
        (Some(message), Some(public_key)) => spec_signature_verdict(
            is_sec1_public_key(public_key),
            if signatures.contains_key(pubkey_addr) {
                Some(ecdsa_verifies(public_key, message, signatures[pubkey_addr]))
            } else {
                None
            },
        ),
        _ => Err(MemoryError::AddressNotRelocatable),
    }
}

/// The verdict of a signature rule on a write to `address`: nothing to say
/// while the pair is incomplete, else the verdict on the pair.
pub open spec fn check_signature_rule(
    cells: Map<Relocatable, Value>,
    rule: SignatureRuleView,
    address: Value,
) -> Result<(), MemoryError> {
    match address {
        Value::Int(_) => Err(MemoryError::AddressNotRelocatable),
        Value::RelocatableValue(a) => match signature_pair(cells, rule.cells_per_instance, a) {
            None => Ok(()),
            Some((pubkey_addr, msg_addr)) => check_signature_pair(
                cells,
                rule.signatures,
                pubkey_addr,
                msg_addr,
            ),
        },
    }
}

/// The validation rule of the signature builtin, as memory keeps it for the
/// builtin's segment.
#[derive(Debug, PartialEq, Eq)]
pub struct SignatureRule {
    cells_per_instance: u32,
    signatures: SignatureRegistry,
}

impl View for SignatureRule {
    type V = SignatureRuleView;

    closed spec fn view(&self) -> SignatureRuleView {
        SignatureRuleView {
            cells_per_instance: self.cells_per_instance as nat,
            signatures: self.signatures@,
        }
    }
}

impl SignatureRule {
    #[verifier::type_invariant]
    spec fn has_cells(self) -> bool {
        self.cells_per_instance > 0
    }

    /// The rule for instances of `cells_per_instance` cells each, with the
    /// signatures registered in `signatures`.
    pub fn new(cells_per_instance: u32, signatures: SignatureRegistry) -> (rule: SignatureRule)
        requires
            cells_per_instance > 0,
        ensures
            rule@ == (SignatureRuleView {
                cells_per_instance: cells_per_instance as nat,
                signatures: signatures@,
            }),
    {
        SignatureRule { cells_per_instance, signatures }
    }

    /// The rule once `signature` was registered for `address`, unless the
    /// address has one.
    pub fn with_signature(self, address: Relocatable, signature: Signature) -> (rule:
        SignatureRule)
        ensures
            rule@ == (SignatureRuleView {
                signatures: register(self@.signatures, address, signature@),
                ..self@
            }),
    {
        proof {
            use_type_invariant(&self);
        }
        let cells_per_instance = self.cells_per_instance;
        let mut signatures = self.signatures;
        signatures.insert_if_absent(address, signature);
        SignatureRule { cells_per_instance, signatures }
    }

    /// Checks the write to `address`, with the cells of `memory` as they are
    /// with the written value in place.
    ///
    /// While the other cell of the pair is empty there is nothing to check,
    /// and the write is accepted. Once both are written, the key must parse,
    /// a signature must be registered for the key's address, and it must
    /// verify the message. There are never any addresses to report.
    pub fn validate(&self, memory: &Memory, address: &MaybeRelocatable) -> (verdict: Result<
        Vec<MaybeRelocatable>,
        MemoryError,
    >)
        ensures
            match verdict {
                Ok(validated) => validated@.len() == 0 && check_signature_rule(
                    memory@.cells,
                    self@,
                    address@,
                ) is Ok,
                Err(e) => check_signature_rule(memory@.cells, self@, address@) == Err::<
                    (),
                    MemoryError,
                >(e),
            },
    {
        proof {
            use_type_invariant(self);
        }
        let address = match address {
            MaybeRelocatable::RelocatableValue(address) => address,
            MaybeRelocatable::Int(_) => return Err(MemoryError::AddressNotRelocatable),
        };
        let address_offset = mod_floor(address.offset, self.cells_per_instance as usize);
        let next = match address.add_usize(1) {
            Some(next) if memory.get(&next).is_some() => Some(next),
            _ => None,
        };
        let previous = match address.sub_usize(1) {
            Some(previous) if memory.get(&previous).is_some() => Some(previous),
            _ => None,
        };
        let (pubkey_addr, msg_addr) = match (address_offset, next, previous) {
            (0, Some(next), _) => (*address, next),
            (1, _, Some(previous)) => (previous, *address),
            _ => return Ok(Vec::new()),
        };
        let message = match memory.get_integer(&msg_addr) {
            Some(felt) => felt.to_bytes_be(),
            None => return Err(MemoryError::AddressNotRelocatable),
        };
        let public_key = match memory.get_integer(&pubkey_addr) {
            Some(felt) => felt.to_bytes_be(),
            None => return Err(MemoryError::AddressNotRelocatable),
        };
        let key_parses = sec1_public_key_parses(public_key.as_slice());
        let verified = match self.signatures.get(&pubkey_addr) {
            Some(signature) if key_parses => Some(
                ecdsa_verify(public_key.as_slice(), message.as_slice(), signature.as_bytes()),
            ),
            Some(_) => Some(false),
            None => None,
        };
        match signature_verdict(key_parses, verified) {
            Ok(()) => Ok(Vec::new()),
            Err(e) => Err(e),
        }
    }
}

impl Clone for SignatureRule {
    fn clone(&self) -> (copy: Self)
        ensures
            copy@ == self@,
    {
        proof {
            use_type_invariant(self);
        }
        SignatureRule {
            cells_per_instance: self.cells_per_instance,
            signatures: self.signatures.clone(),
        }
    }
}

/// The cells of one instance of the builtin.
pub const CELLS_PER_INSTANCE: u32 = 5;

/// The cells of an instance that the program writes: public key and message.
pub const N_INPUT_CELLS: u32 = 2;

/// The instances that one component of the layout holds.
pub const INSTANCES_PER_COMPONENT: u32 = 1;

/// The memory units that a run of `current_step` steps allocates to the
/// builtin: the cells of one instance for every full `ratio` steps.
pub open spec fn allocated_memory_units(ratio: u32, current_step: usize) -> Result<
    usize,
    MemoryError,
> {
    if ratio == 0 || CELLS_PER_INSTANCE * (current_step as int / ratio as int) > usize::MAX {
        Err(MemoryError::ErrorCalculatingMemoryUnits)
    } else {
        Ok((CELLS_PER_INSTANCE * (current_step as int / ratio as int)) as usize)
    }
}

/// The cells of segment `base` that the run used, as the segment manager
/// measured them.
pub open spec fn used_cells(base: isize, segments: MemorySegmentManager) -> Result<
    usize,
    MemoryError,
> {
    if base < 0 {
        Err(MemoryError::AddressInTemporarySegment(base))
    } else {
        match segments.spec_segment_used_size(base as int) {
            Some(size) => Ok(size),
            None => Err(MemoryError::MissingSegmentUsedSizes),
        }
    }
}

/// The instances that the used cells of segment `base` make up, a started
/// instance counting as one.
pub open spec fn used_instances(base: isize, segments: MemorySegmentManager) -> Result<
    usize,
    MemoryError,
> {
    match used_cells(base, segments) {
        Ok(used) => Ok(ceil_div(used as int, CELLS_PER_INSTANCE as int) as usize),
        Err(e) => Err(e),
    }
}

/// The used cells of segment `base` and the cells that the run allocates to
/// the builtin: those of one instance for every started `ratio` steps.
///
/// A run shorter than one component needs has allocated too little. So has
/// one whose allocation cannot be computed.
pub open spec fn used_cells_and_allocated_size(
    ratio: u32,
    base: isize,
    segments: MemorySegmentManager,
    current_step: usize,
) -> Result<(usize, usize), MemoryError> {
    if current_step < ratio * INSTANCES_PER_COMPONENT {
        Err(MemoryError::InsufficientAllocatedCells)
    } else {
        match used_cells(base, segments) {
            Err(e) => Err(e),
            Ok(used) => {
                if ratio == 0 || CELLS_PER_INSTANCE * ceil_div(current_step as int, ratio as int)
                    > usize::MAX {
                    Err(MemoryError::InsufficientAllocatedCells)
                } else {
                    Ok(
                        (
                            used,
                            (CELLS_PER_INSTANCE * ceil_div(
                                current_step as int,
                                ratio as int,
                            )) as usize,
                        ),
                    )
                }
            },
        }
    }
}

/// How the stack teardown of the builtin ends for the stack pointer
/// `pointer`: with the pointer one cell down and the offset at which the
/// used cells end, or with the reason why not.
///
/// A builtin that is not part of the stack leaves the pointer alone. For one
/// that is, the cell below the pointer must hold the stop pointer: an address
/// in the builtin's own segment, at the end of its used instances.
pub open spec fn final_stack(
    included: bool,
    base: isize,
    cells: Map<Relocatable, Value>,
    segments: MemorySegmentManager,
    pointer: Relocatable,
) -> Result<(Relocatable, usize), RunnerErrorView> {
    if !included {
        Ok((pointer, base as usize))
    } else if pointer.offset == 0 {
        Err(RunnerErrorView::FinalStack)
    } else {
        let below = pointer.spec_add(-1);
        if !cells.contains_key(below) {
            Err(RunnerErrorView::FinalStack)
        } else {
            match cells[below] {
                Value::Int(_) => Err(RunnerErrorView::FinalStack),
                Value::RelocatableValue(stop_pointer) => {
                    if base != stop_pointer.segment_index {
                        Err(RunnerErrorView::InvalidStopPointer("ecdsa"@))
                    } else {
                        match used_cells(base, segments) {
                            Err(_) => Err(RunnerErrorView::FinalStack),
                            Ok(used) => if stop_pointer.offset != ceil_div(
                                used as int,
                                CELLS_PER_INSTANCE as int,
                            ) * CELLS_PER_INSTANCE {
                                Err(RunnerErrorView::InvalidStopPointer("ecdsa"@))
                            } else {
                                Ok((below, stop_pointer.offset))
                            },
                        }
                    }
                },
            }
        }
    }
}

/// The runner of the signature builtin.
#[derive(Debug, PartialEq, Eq)]
pub struct SignatureBuiltinRunner {
    /// Whether the builtin takes part in the call stack of the program.
    pub included: bool,
    /// One instance is allocated every `ratio` steps.
    pub ratio: u32,
    /// The segment of the builtin, assigned when its segment is allocated.
    pub base: isize,
    /// Where the used cells end, once the stack was torn down.
    pub stop_ptr: Option<usize>,
    /// The registered signatures by the address of the public key cell.
    pub signatures: SignatureRegistry,
}

impl SignatureBuiltinRunner {
    /// The runner for a layout, at segment 0 until its segment is allocated,
    /// with no signature registered.
    pub fn new(instance_def: &EcdsaInstanceDef, included: bool) -> (runner: Self)
        ensures
            runner.included == included,
            runner.ratio == instance_def.ratio,
            runner.base == 0,
            runner.stop_ptr is None,
            runner.signatures@ == Map::<Relocatable, Seq<u8>>::empty(),
    {
        SignatureBuiltinRunner {
            base: 0,
            included,
            ratio: instance_def.ratio,
            stop_ptr: None,
            signatures: SignatureRegistry::new(),
        }
    }

    /// Whether the rule that `memory` holds for the builtin's segment is the
    /// builtin's own, with the signatures as the runner has them now.
    pub open spec fn installed_in(&self, memory: MemoryView) -> bool {
        &&& self.base >= 0
        &&& memory.rules.contains_key(self.base as usize)
        &&& memory.rules[self.base as usize] == ValidationRuleView::Signature(
            SignatureRuleView {
                cells_per_instance: CELLS_PER_INSTANCE as nat,
                signatures: self.signatures@,
            },
        )
    }

    /// Registers `signature` for the public key cell at `relocatable`, with
    /// the runner and with the rule that `memory` holds for the builtin's
    /// segment, so that the next write is judged with it. The first
    /// registration for a cell stays, later ones change nothing.
    ///
    /// Signatures may be registered before the rule is installed or after:
    /// an installed rule always has the signatures of the runner.
    pub fn add_signature(
        &mut self,
        memory: &mut Memory,
        relocatable: Relocatable,
        signature: Signature,
    )
        ensures
            final(self).signatures@ == register(old(self).signatures@, relocatable, signature@),
            final(self).included == old(self).included,
            final(self).ratio == old(self).ratio,
            final(self).base == old(self).base,
            final(self).stop_ptr == old(self).stop_ptr,
            final(memory)@ == if old(self).base >= 0 {
                old(memory)@.register_signature(
                    old(self).base as usize,
                    relocatable,
                    signature@,
                )
            } else {
                old(memory)@
            },
            old(self).installed_in(old(memory)@) ==> final(self).installed_in(final(memory)@),
    {
        match isize_to_usize(self.base) {
            Some(segment) => memory.add_signature(segment, relocatable, signature.clone()),
            None => {},
        }
        self.signatures.insert_if_absent(relocatable, signature);
    }

    /// Allocates the segment of the builtin and makes it the runner's base.
    pub fn initialize_segments(
        &mut self,
        segments: &mut MemorySegmentManager,
        memory: &mut Memory,
    )
        requires
            old(segments).num_segments < isize::MAX,
        ensures
            final(self).base == old(segments).num_segments,
            final(self).included == old(self).included,
            final(self).ratio == old(self).ratio,
            final(self).stop_ptr == old(self).stop_ptr,
            final(self).signatures == old(self).signatures,
            final(segments).num_segments == old(segments).num_segments + 1,
            final(segments).segment_used_sizes == old(segments).segment_used_sizes,
            final(memory)@ == (MemoryView {
                num_segments: old(memory)@.num_segments + 1,
                ..old(memory)@
            }),
    {
        self.base = segments.add(memory).segment_index;
    }

    /// What the builtin puts on the initial stack: its base address if it is
    /// part of the stack, nothing otherwise.
    pub fn initial_stack(&self) -> (stack: Vec<MaybeRelocatable>)
        ensures
            stack@.len() == if self.included {
                1nat
            } else {
                0nat
            },
            self.included ==> stack@[0]@ == Value::RelocatableValue(
                Relocatable { segment_index: self.base, offset: 0 },
            ),
    {
        let mut stack: Vec<MaybeRelocatable> = Vec::new();
        if self.included {
            stack.push(MaybeRelocatable::from((self.base, 0)));
        }
        stack
    }

    /// The segment of the builtin.
    pub fn base(&self) -> (base: isize)
        ensures
            base == self.base,
    {
        self.base
    }

    /// Installs the validation rule of the builtin for its segment, with the
    /// signatures registered so far.
    pub fn add_validation_rule(&self, memory: &mut Memory) -> (installed: Result<(), RunnerError>)
        ensures
            self.base >= 0 ==> installed == Ok::<(), RunnerError>(()) && final(memory)@ == (MemoryView {
                rules: old(memory)@.rules.insert(
                    self.base as usize,
                    ValidationRuleView::Signature(
                        SignatureRuleView {
                            cells_per_instance: CELLS_PER_INSTANCE as nat,
                            signatures: self.signatures@,
                        },
                    ),
                ),
                ..old(memory)@
            }),
            self.base < 0 ==> installed == Err::<(), RunnerError>(
                RunnerError::RunnerInTemporarySegment(self.base),
            ) && final(memory)@ == old(memory)@,
            self.base >= 0 ==> self.installed_in(final(memory)@),
    {
        let segment = match isize_to_usize(self.base) {
            Some(segment) => segment,
            None => return Err(RunnerError::RunnerInTemporarySegment(self.base)),
        };
        let rule = SignatureRule::new(CELLS_PER_INSTANCE, self.signatures.clone());
        memory.add_validation_rule(segment, ValidationRule::Signature(rule));
        Ok(())
    }

    /// The builtin deduces no cell from others.
    pub fn deduce_memory_cell(&mut self, _address: &Relocatable, _memory: &Memory) -> (deduced:
        Result<Option<MaybeRelocatable>, RunnerError>)
        ensures
            deduced == Ok::<Option<MaybeRelocatable>, RunnerError>(None),
            *final(self) == *old(self),
    {
        Ok(None)
    }

    /// One instance is allocated every `ratio` steps.
    pub fn ratio(&self) -> (ratio: u32)
        ensures
            ratio == self.ratio,
    {
        self.ratio
    }

    /// The memory units that the run has allocated to the builtin so far.
    pub fn get_allocated_memory_units(&self, vm: &VirtualMachine) -> (units: Result<
        usize,
        MemoryError,
    >)
        ensures
            units == allocated_memory_units(self.ratio, vm.current_step),
    {
        if self.ratio == 0 {
            return Err(MemoryError::ErrorCalculatingMemoryUnits);
        }
        let value = vm.current_step / (self.ratio as usize);
        match (CELLS_PER_INSTANCE as usize).checked_mul(value) {
            Some(units) => Ok(units),
            None => Err(MemoryError::ErrorCalculatingMemoryUnits),
        }
    }

    /// The name of the builtin, its segment and where its used cells end.
    pub fn get_memory_segment_addresses(&self) -> (addresses: (&'static str, (isize, Option<usize>)))
        ensures
            addresses.0@ == "ecdsa"@,
            addresses.1 == (self.base, self.stop_ptr),
    {
        ("ecdsa", (self.base, self.stop_ptr))
    }

    /// The cells of the builtin's segment that the run used.
    pub fn get_used_cells(&self, vm: &VirtualMachine) -> (used: Result<usize, MemoryError>)
        ensures
            used == used_cells(self.base, vm.segments),
    {
        let base = self.base();
        let segment = match isize_to_usize(base) {
            Some(segment) => segment,
            None => return Err(MemoryError::AddressInTemporarySegment(base)),
        };
        match vm.segments.get_segment_used_size(segment) {
            Some(size) => Ok(size),
            None => Err(MemoryError::MissingSegmentUsedSizes),
        }
    }

    /// The used cells of the builtin's segment, and the cells that the run
    /// has allocated to the builtin.
    pub fn get_used_cells_and_allocated_size(&self, vm: &VirtualMachine) -> (sizes: Result<
        (usize, usize),
        MemoryError,
    >)
        ensures
            sizes == used_cells_and_allocated_size(
                self.ratio,
                self.base,
                vm.segments,
                vm.current_step,
            ),
    {
        let ratio = self.ratio as usize;
        let min_step = ratio * (INSTANCES_PER_COMPONENT as usize);
        if vm.current_step < min_step {
            Err(MemoryError::InsufficientAllocatedCells)
        } else {
            let used = match self.get_used_cells(vm) {
                Ok(used) => used,
                Err(e) => return Err(e),
            };
            if ratio == 0 {
                return Err(MemoryError::InsufficientAllocatedCells);
            }
            let instances = div_ceil(vm.current_step, ratio);
            match (CELLS_PER_INSTANCE as usize).checked_mul(instances) {
                Some(size) => Ok((used, size)),
                None => Err(MemoryError::InsufficientAllocatedCells),
            }
        }
    }

    /// The instances of the builtin that the run used.
    pub fn get_used_instances(&self, vm: &VirtualMachine) -> (instances: Result<
        usize,
        MemoryError,
    >)
        ensures
            instances == used_instances(self.base, vm.segments),
    {
        match self.get_used_cells(vm) {
            Ok(used_cells) => Ok(div_ceil(used_cells, CELLS_PER_INSTANCE as usize)),
            Err(e) => Err(e),
        }
    }

    /// Takes the builtin's stop pointer off the stack that ends at `pointer`
    /// and checks it against the cells that the run used.
    pub fn final_stack(&self, vm: &VirtualMachine, pointer: Relocatable) -> (torn_down: Result<
        (Relocatable, usize),
        RunnerError,
    >)
        ensures
            final_stack(self.included, self.base, vm.memory@.cells, vm.segments, pointer)
                == match torn_down {
                Ok(pair) => Ok::<(Relocatable, usize), RunnerErrorView>(pair),
                Err(e) => Err::<(Relocatable, usize), RunnerErrorView>(e@),
            },
    {
        if self.included {
            let below = match pointer.sub_usize(1) {
                Some(below) => below,
                None => return Err(RunnerError::FinalStack),
            };
            let stop_pointer = match vm.get_relocatable(&below) {
                Some(stop_pointer) => stop_pointer,
                None => return Err(RunnerError::FinalStack),
            };
            if self.base() != stop_pointer.segment_index {
                return Err(RunnerError::InvalidStopPointer("ecdsa".to_owned()));
            }
            let stop_ptr = stop_pointer.offset;
            let num_instances = match self.get_used_instances(vm) {
                Ok(num_instances) => num_instances,
                Err(_) => return Err(RunnerError::FinalStack),
            };
            match num_instances.checked_mul(CELLS_PER_INSTANCE as usize) {
                Some(used_cells) if stop_ptr == used_cells => Ok((below, stop_ptr)),
                _ => Err(RunnerError::InvalidStopPointer("ecdsa".to_owned())),
            }
        } else {
            let stop_ptr = #[verifier::truncate]
            (self.base() as usize);
            Ok((pointer, stop_ptr))
        }
    }
}

/// A key and its message may be written in either order.
///
/// Take a memory whose rule for the segment of `address` is a signature
/// rule, a public key cell `address` and the message cell after it, both
/// still empty. Whichever of the two is written first, that write is
/// accepted without a check, the pair is checked once, at the second write,
/// and the verdict is the same in both orders. Where it is acceptance, both
/// orders leave the same memory; where it is not, the second write does not
/// last. If the key parses and the signature registered for `address`
/// verifies the message, the verdict is acceptance.
pub proof fn lemma_signature_order_independent(
    memory: MemoryView,
    rule: SignatureRuleView,
    address: Relocatable,
    public_key: Seq<u8>,
    message: Seq<u8>,
)
    requires
        0 <= address.segment_index < memory.num_segments,
        memory.rules.contains_key(address.segment_index as usize),
        memory.rules[address.segment_index as usize] == ValidationRuleView::Signature(rule),
        rule.cells_per_instance >= 2,
        address.offset as nat % rule.cells_per_instance == 0,
        address.offset < usize::MAX,
        !memory.cells.contains_key(address),
        !memory.cells.contains_key(address.spec_add(1)),
    ensures
        ({
            let next = address.spec_add(1);
            let key = Value::Int(public_key);
            let text = Value::Int(message);
            let key_first = memory.insert(address, key);
            let key_then_message = key_first.0.insert(next, text);
            let message_first = memory.insert(next, text);
            let message_then_key = message_first.0.insert(address, key);
            let both = memory.store(address, key).store(next, text);
            &&& key_first == (memory.store(address, key), Ok::<(), MemoryError>(()))
            &&& message_first == (memory.store(next, text), Ok::<(), MemoryError>(()))
            &&& signature_pair(key_first.0.cells, rule.cells_per_instance, address) is None
            &&& signature_pair(message_first.0.cells, rule.cells_per_instance, next) is None
            &&& signature_pair(both.cells, rule.cells_per_instance, next) == Some((address, next))
            &&& signature_pair(both.cells, rule.cells_per_instance, address) == Some(
                (address, next),
            )
            &&& key_then_message.1 == message_then_key.1
            &&& key_then_message.1 == spec_signature_verdict(
                is_sec1_public_key(public_key),
                if rule.signatures.contains_key(address) {
                    Some(ecdsa_verifies(public_key, message, rule.signatures[address]))
                } else {
                    None
                },
            )
            &&& key_then_message.1 is Ok ==> key_then_message.0 == both && message_then_key.0
                == both
            &&& key_then_message.1 is Err ==> key_then_message.0 == key_first.0
                && message_then_key.0 == message_first.0
            &&& rule.signatures.contains_key(address) && is_sec1_public_key(public_key)
                && ecdsa_verifies(public_key, message, rule.signatures[address])
                ==> key_then_message.1 == Ok::<(), MemoryError>(())
        }),
{
    let next = address.spec_add(1);
    let c = rule.cells_per_instance as int;
    let x = address.offset as int;
    assert((x + 1) % c == 1) by (nonlinear_arith)
        requires
            x % c == 0,
            c >= 2,
            x >= 0,
    ;
    assert(next.spec_add(-1) == address);
    assert(next.offset == address.offset + 1);
    let key = Value::Int(public_key);
    let text = Value::Int(message);
    let both = memory.store(address, key).store(next, text);
    let other = memory.store(next, text).store(address, key);
    assert(both.cells =~= other.cells);
}

/// A signature registered after the rule was installed is seen.
///
/// Take a memory whose rule for the segment of `address` is a signature
/// rule, and register `signature` for the public key cell `address`, which
/// had none, with that rule. If the key parses and `signature` verifies the
/// message, then key and message, written to the empty pair in either order,
/// are both accepted.
pub proof fn lemma_late_registration_is_seen(
    memory: MemoryView,
    rule: SignatureRuleView,
    address: Relocatable,
    signature: Seq<u8>,
    public_key: Seq<u8>,
    message: Seq<u8>,
)
    requires
        0 <= address.segment_index < memory.num_segments,
        memory.rules.contains_key(address.segment_index as usize),
        memory.rules[address.segment_index as usize] == ValidationRuleView::Signature(rule),
        rule.cells_per_instance >= 2,
        address.offset as nat % rule.cells_per_instance == 0,
        address.offset < usize::MAX,
        !memory.cells.contains_key(address),
        !memory.cells.contains_key(address.spec_add(1)),
        !rule.signatures.contains_key(address),
    ensures
        ({
            let next = address.spec_add(1);
            let registered = memory.register_signature(
                address.segment_index as usize,
                address,
                signature,
            );
            let key_first = registered.insert(address, Value::Int(public_key));
            let key_then_message = key_first.0.insert(next, Value::Int(message));
            let message_first = registered.insert(next, Value::Int(message));
            let message_then_key = message_first.0.insert(address, Value::Int(public_key));
            &&& registered.cells == memory.cells
            &&& registered.rules[address.segment_index as usize]
                == ValidationRuleView::Signature(
                SignatureRuleView {
                    signatures: rule.signatures.insert(address, signature),
                    ..rule
                },
            )
            &&& is_sec1_public_key(public_key) && ecdsa_verifies(public_key, message, signature)
                ==> {
                &&& key_first.1 == Ok::<(), MemoryError>(())
                &&& key_then_message.1 == Ok::<(), MemoryError>(())
                &&& message_first.1 == Ok::<(), MemoryError>(())
                &&& message_then_key.1 == Ok::<(), MemoryError>(())
            }
        }),
{
    let registered = memory.register_signature(address.segment_index as usize, address, signature);
    let seen = SignatureRuleView { signatures: rule.signatures.insert(address, signature), ..rule };
    lemma_signature_order_independent(registered, seen, address, public_key, message);
}

/// A key without a registered signature is refused.
///
/// Take a memory whose rule for the segment of `address` is a signature
/// rule without a signature for the public key cell `address`, and whose
/// message cell after it holds a field element. If the key parses, writing
/// it fails for want of a signature.
pub proof fn lemma_unregistered_key_is_missing_signature(
    memory: MemoryView,
    rule: SignatureRuleView,
    address: Relocatable,
    public_key: Seq<u8>,
)
    requires
        0 <= address.segment_index < memory.num_segments,
        memory.rules.contains_key(address.segment_index as usize),
        memory.rules[address.segment_index as usize] == ValidationRuleView::Signature(rule),
        rule.cells_per_instance >= 1,
        address.offset as nat % rule.cells_per_instance == 0,
        address.offset < usize::MAX,
        cell_bytes(memory.cells, address.spec_add(1)) is Some,
        !rule.signatures.contains_key(address),
    ensures
        is_sec1_public_key(public_key) ==> memory.insert(address, Value::Int(public_key)).1 == Err::<
            (),
            MemoryError,
        >(MemoryError::MissingSignature),
{
}

/// A stop pointer into another segment is invalid.
///
/// For a builtin that is part of the stack: if the cell below `pointer`
/// holds an address outside the builtin's segment, the teardown fails with
/// an invalid stop pointer, whatever the run used.
pub proof fn lemma_foreign_stop_pointer_is_invalid(
    base: isize,
    cells: Map<Relocatable, Value>,
    segments: MemorySegmentManager,
    pointer: Relocatable,
    stop_pointer: Relocatable,
)
    requires
        pointer.offset > 0,
        cells.contains_key(pointer.spec_add(-1)),
        cells[pointer.spec_add(-1)] == Value::RelocatableValue(stop_pointer),
        stop_pointer.segment_index != base,
    ensures
        final_stack(true, base, cells, segments, pointer) == Err::<
            (Relocatable, usize),
            RunnerErrorView,
        >(RunnerErrorView::InvalidStopPointer("ecdsa"@)),
{
}

} // verus!
