//! Choice of the heap that allocations come from: internal SRAM by
//! default, external PSRAM while large buffers are being set up.
use vstd::prelude::*;

verus! {

/// Which memory an allocation is served from.
#[derive(Clone, Copy, Debug, PartialEq, Eq, Structural)]
pub enum MemoryRegion {
    Internal,
    External,
}

/// The allocator's switch between the two heaps.
pub struct DualHeapAllocator {
    use_psram: bool,
}

impl DualHeapAllocator {
    pub closed spec fn psram(&self) -> bool {
        self.use_psram
    }

    /// Serves from internal memory until switched.
    pub fn new() -> (a: Self)
        ensures
            !a.psram(),
    {
        DualHeapAllocator { use_psram: false }
    }

    /// Where the next allocation comes from.
    pub fn region(&self) -> (r: MemoryRegion)
        ensures
            r == (if self.psram() {
                MemoryRegion::External
            } else {
                MemoryRegion::Internal
            }),
    {
        if self.use_psram {
            MemoryRegion::External
        } else {
            MemoryRegion::Internal
        }
    }

    /// Serve the following allocations from PSRAM.
    pub fn use_psram_heap(&mut self)
        ensures
            final(self).psram(),
    {
        self.use_psram = true;
    }

    /// Serve the following allocations from internal SRAM.
    pub fn use_sram_heap(&mut self)
        ensures
            !final(self).psram(),
    {
        self.use_psram = false;
    }

    /// Serve the following allocations from PSRAM when `enabled`, else SRAM.
    pub fn set_psram_alloc(&mut self, enabled: bool)
        ensures
            final(self).psram() == enabled,
    {
        self.use_psram = enabled;
    }
}

} // verus!
