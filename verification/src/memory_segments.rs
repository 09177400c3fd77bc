//! The segment manager: it hands out segments and knows, once a run is
//! measured, how many cells of each were used.

use crate::memory::{Memory, MemoryView};
use crate::relocatable::Relocatable;
use vstd::prelude::*;

verus! {

/// Hands out memory segments by number, and holds the used size of each
/// segment once these are known.
#[derive(Debug, PartialEq, Eq)]
pub struct MemorySegmentManager {
    pub num_segments: usize,
    pub segment_used_sizes: Option<Vec<usize>>,
}

impl MemorySegmentManager {
    /// The used size of segment `index`, as far as the manager knows it.
    pub open spec fn spec_segment_used_size(&self, index: int) -> Option<usize> {
        match self.segment_used_sizes {
            Some(sizes) => if 0 <= index < sizes@.len() {
                Some(sizes@[index])
            } else {
                None
            },
            None => None,
        }
    }

    /// A manager that has handed out nothing and measured nothing.
    pub fn new() -> (segments: MemorySegmentManager)
        ensures
            segments.num_segments == 0,
            segments.segment_used_sizes is None,
    {
        MemorySegmentManager { num_segments: 0, segment_used_sizes: None }
    }

    /// Allocates a segment in `memory` and returns its first address.
    pub fn add(&mut self, memory: &mut Memory) -> (base: Relocatable)
        requires
            old(self).num_segments < isize::MAX,
        ensures
            base == (Relocatable { segment_index: old(self).num_segments as isize, offset: 0 }),
            final(self).num_segments == old(self).num_segments + 1,
            final(self).segment_used_sizes == old(self).segment_used_sizes,
            final(memory)@ == (MemoryView {
                num_segments: old(memory)@.num_segments + 1,
                ..old(memory)@
            }),
    {
        let segment_index = self.num_segments as isize;
        self.num_segments += 1;
        memory.add_segment();
        Relocatable { segment_index, offset: 0 }
    }

    /// The used size of segment `index`, if the sizes were measured and the
    /// segment is among them.
    pub fn get_segment_used_size(&self, index: usize) -> (size: Option<usize>)
        ensures
            size == self.spec_segment_used_size(index as int),
    {
        match &self.segment_used_sizes {
            Some(sizes) => if index < sizes.len() {
                Some(sizes[index])
            } else {
                None
            },
            None => None,
        }
    }
}

} // verus!
