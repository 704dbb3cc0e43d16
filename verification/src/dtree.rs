//! Flattened-device-tree structure types.
//!
//! Device-tree parsing is an external collaborator of the process
//! core; this module fixes the blob's header, token and property
//! layouts and the small decoders over them.  The blob stores words in
//! big-endian order; callers hand values in host order.

use vstd::prelude::*;

verus! {

/// Structure-block tokens of a flattened device tree.
#[derive(Clone, Copy, PartialEq, Eq, Structural, Debug)]
#[allow(non_camel_case_types)]
pub enum FDT_TOKEN {
    BEGIN_NODE,
    END_NODE,
    PROP,
    NOP,
    END,
}

impl FDT_TOKEN {
    /// Decode a structure-block word (already converted to host
    /// order); anything but the five defined tokens is rejected.
    pub fn from_u32(val: u32) -> (r: Option<FDT_TOKEN>)
        ensures
            val == 1 ==> r == Some(FDT_TOKEN::BEGIN_NODE),
            val == 2 ==> r == Some(FDT_TOKEN::END_NODE),
            val == 3 ==> r == Some(FDT_TOKEN::PROP),
            val == 4 ==> r == Some(FDT_TOKEN::NOP),
            val == 9 ==> r == Some(FDT_TOKEN::END),
            val != 1 && val != 2 && val != 3 && val != 4 && val != 9 ==> r is None,
    {
        if val == 1 {
            Some(FDT_TOKEN::BEGIN_NODE)
        } else if val == 2 {
            Some(FDT_TOKEN::END_NODE)
        } else if val == 3 {
            Some(FDT_TOKEN::PROP)
        } else if val == 4 {
            Some(FDT_TOKEN::NOP)
        } else if val == 9 {
            Some(FDT_TOKEN::END)
        } else {
            None
        }
    }
}

/// The fixed header at the start of a flattened device tree, fields in
/// host order.
#[derive(Clone, Copy, PartialEq, Eq, Structural, Debug)]
pub struct DeviceTreeHeader {
    pub magic: u32,
    pub totalsize: u32,
    pub off_dt_struct: u32,
    pub off_dt_strings: u32,
    pub off_mem_resvmap: u32,
    pub version: u32,
    pub last_comp_version: u32,
    pub boot_cpuid_phys: u32,
    pub size_dt_strings: u32,
    pub size_dt_struct: u32,
}

impl DeviceTreeHeader {
    /// Whether the blob carries the device-tree magic (0xd00dfeed);
    /// the parser refuses to start otherwise.
    pub fn magic_ok(&self) -> (r: bool)
        ensures
            r <==> self.magic == 0xd00dfeed,
    {
        self.magic == 0xd00dfeed
    }
}

/// One name/value property of a device-tree node.
pub struct DeviceTreeProperty {
    pub name: Vec<u8>,
    pub value: Vec<u8>,
}

/// A reserved memory block (a region the allocator must not touch).
#[derive(Clone, Copy, PartialEq, Eq, Structural, Debug)]
pub struct MemResBlock {
    pub addr: u64,
    pub size: u64,
}

impl MemResBlock {
    /// The all-zero block terminating the reservation list.
    pub fn is_zero(&self) -> (r: bool)
        ensures
            r <==> self.addr == 0 && self.size == 0,
    {
        self.addr == 0 && self.size == 0
    }
}

/// The pair of words that follows a PROP token.
#[derive(Clone, Copy, PartialEq, Eq, Structural, Debug)]
pub struct PropData {
    pub len_data: u32,
    pub name_off: u32,
}

/// The prefix of the reservation list before its zero terminator — the
/// blocks the allocator must avoid.
pub fn reserved_blocks(blocks: &Vec<MemResBlock>) -> (r: Vec<MemResBlock>)
    ensures
        r@.len() <= blocks@.len(),
        forall|i: int| 0 <= i < r@.len() ==> r@[i] == blocks@[i],
        forall|i: int| 0 <= i < r@.len() ==> !(r@[i].addr == 0 && r@[i].size == 0),
        r@.len() < blocks@.len() ==> blocks@[r@.len() as int].addr == 0
            && blocks@[r@.len() as int].size == 0,
{
    let mut r: Vec<MemResBlock> = Vec::new();
    let mut i: usize = 0;
    while i < blocks.len()
        invariant
            i <= blocks@.len(),
            r@.len() == i,
            forall|k: int| 0 <= k < i ==> r@[k] == blocks@[k],
            forall|k: int| 0 <= k < i ==> !(r@[k].addr == 0 && r@[k].size == 0),
        decreases blocks@.len() - i,
    {
        let b = blocks[i];
        if b.is_zero() {
            return r;
        }
        r.push(b);
        i = i + 1;
    }
    r
}

} // verus!
