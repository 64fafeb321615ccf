use vstd::prelude::*;

verus! {

/// What a block of a running flow receives from the block before it.
pub struct ExecParam {
    /// The data that the previous block produced.
    pub prev_block_data: Option<String>,
    /// The target handle (connection point) of this block.
    pub target_handle: Option<String>,
    /// The source handle of the previous block.
    pub source_handle: Option<String>,
    /// The breakpoint count of the next block.
    pub next_block_breakpoint_count: Option<u32>,
    /// Whether execution resumes after a breakpoint.
    pub resume: bool,
}

impl ExecParam {
    /// Gathers the given values.
    pub fn new(
        prev_block_data: Option<String>,
        target_handle: Option<String>,
        source_handle: Option<String>,
        next_block_breakpoint_count: Option<u32>,
        resume: bool,
    ) -> (r: Self)
        ensures
            r.prev_block_data == prev_block_data,
            r.target_handle == target_handle,
            r.source_handle == source_handle,
            r.next_block_breakpoint_count == next_block_breakpoint_count,
            r.resume == resume,
    {
        ExecParam {
            prev_block_data,
            target_handle,
            source_handle,
            next_block_breakpoint_count,
            resume,
        }
    }
}

} // verus!
