//! The state of the machine that hints and builtins work on.

use crate::memory::{Memory, MemoryView, ValidationRuleView};
use crate::memory_segments::MemorySegmentManager;
use crate::relocatable::{Relocatable, Value};
use vstd::prelude::*;

verus! {

/// The registers that identifiers are resolved against: the offsets of the
/// allocation pointer and of the frame pointer in the execution segment.
#[derive(Debug, Clone, Copy, PartialEq, Eq)]
pub struct RunContext {
    pub ap: usize,
    pub fp: usize,
}

/// The machine: registers, memory, segments and the number of steps taken.
#[derive(Debug, PartialEq, Eq)]
pub struct VirtualMachine {
    pub run_context: RunContext,
    pub memory: Memory,
    pub segments: MemorySegmentManager,
    pub current_step: usize,
}

/// What a machine is, apart from how it is stored.
pub struct MachineView {
    pub run_context: RunContext,
    pub memory: MemoryView,
    /// How many segments the segment manager has handed out.
    pub num_segments: usize,
    /// The used size of each segment, once measured.
    pub segment_used_sizes: Option<Seq<usize>>,
    pub current_step: usize,
}

impl View for VirtualMachine {
    type V = MachineView;

    open spec fn view(&self) -> MachineView {
        MachineView {
            run_context: self.run_context,
            memory: self.memory@,
            num_segments: self.segments.num_segments,
            segment_used_sizes: match self.segments.segment_used_sizes {
                Some(sizes) => Some(sizes@),
                None => None,
            },
            current_step: self.current_step,
        }
    }
}

impl VirtualMachine {
    /// A machine that has taken no step, with empty memory.
    pub fn new() -> (vm: VirtualMachine)
        ensures
            vm.run_context == (RunContext { ap: 0, fp: 0 }),
            vm.memory@.cells == Map::<Relocatable, Value>::empty(),
            vm.memory@.num_segments == 0,
            vm.memory@.rules == Map::<usize, ValidationRuleView>::empty(),
            vm.segments.num_segments == 0,
            vm.segments.segment_used_sizes is None,
            vm.current_step == 0,
    {
        VirtualMachine {
            run_context: RunContext { ap: 0, fp: 0 },
            memory: Memory::new(),
            segments: MemorySegmentManager::new(),
            current_step: 0,
        }
    }

    /// The address in the memory cell at `key`, if the cell holds one.
    pub fn get_relocatable(&self, key: &Relocatable) -> (address: Option<Relocatable>)
        ensures
            match address {
                Some(a) => self.memory@.cells.contains_key(*key) && self.memory@.cells[*key]
                    == Value::RelocatableValue(a),
                None => !self.memory@.cells.contains_key(*key) || self.memory@.cells[*key] is Int,
            },
    {
        self.memory.get_relocatable(key)
    }
}

} // verus!
