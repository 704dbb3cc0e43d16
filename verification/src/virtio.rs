//! The virtio block device's register window and virtqueue layout,
//! and the ring bookkeeping of the driver.
//!
//! The MMIO accesses themselves (the doorbell write, the device-side
//! used index) are the boot layer's; the ring state and its rules live
//! here.

use vstd::prelude::*;

use crate::registers::{Read, ReadWrite, Register, Write};

verus! {

/// Entries per virtqueue.
pub const VIRTQ_ENTRY_NUM: usize = 16;

/// The legacy virtio MMIO register window of the block device.
pub struct VirtioDevice {
    pub magic_val: Register<u32, Read>,
    pub version: Register<u32, Read>,
    pub device_id: Register<u32, Read>,
    pub vendor_id: Register<u32, Read>,
    pub device_feat: Register<u32, Read>,
    pub device_feat_sel: Register<u32, Write>,
    pub driver_feat: Register<u32, Write>,
    pub driver_feat_sel: Register<u32, Write>,
    pub queue_sel: Register<u32, Write>,
    pub queue_num_max: Register<u32, Read>,
    pub queue_num: Register<u32, Write>,
    pub queue_ready: Register<u32, ReadWrite>,
    pub queue_notify: Register<u32, Write>,
    pub interrupt_status: Register<u32, Read>,
    pub interrupt_ack: Register<u32, Write>,
    pub status: Register<u32, ReadWrite>,
    pub queue_desc: Register<u64, Write>,
    pub queue_driver: Register<u64, Write>,
    pub queue_device: Register<u64, Write>,
    pub config_gen: Register<u32, Read>,
    pub config: Register<u32, ReadWrite>,
}

/// One descriptor of a virtqueue.
#[derive(Clone, Copy, PartialEq, Eq, Structural, Debug)]
pub struct VirtQueueDesc {
    pub addr: u64,
    pub len: u32,
    pub flags: u16,
    pub next: u16,
}

/// The driver-written available ring.
pub struct VirtQueueAvailableRing {
    pub flags: u16,
    pub index: u16,
    pub ringbuf: Vec<u16>,
}

/// One element of the device-written used ring.
#[derive(Clone, Copy, PartialEq, Eq, Structural, Debug)]
pub struct VirtQueueUsedElemnts {
    pub id: u32,
    pub len: u32,
}

/// The device-written used ring.
pub struct VirtQueueUsedRing {
    pub flags: u16,
    pub index: u16,
    pub ring: Vec<VirtQueueUsedElemnts>,
}

/// One virtqueue of the block device, driver side.
pub struct VirtioVirtualQueue {
    pub descs: Vec<VirtQueueDesc>,
    pub available: VirtQueueAvailableRing,
    pub used: VirtQueueUsedRing,
    pub queue_index: u32,
    pub last_index: u16,
}

impl VirtioVirtualQueue {
    /// Ring sizes are fixed at the queue's entry count.
    pub open spec fn wf(&self) -> bool {
        &&& self.descs@.len() == VIRTQ_ENTRY_NUM
        &&& self.available.ringbuf@.len() == VIRTQ_ENTRY_NUM
        &&& self.used.ring@.len() == VIRTQ_ENTRY_NUM
    }

    /// Publish descriptor chain `desc_ind` to the device: write it
    /// into the available ring at the ring cursor, advance the cursor
    /// and the driver's own progress counter, and hand back the queue
    /// index to write into the notify doorbell.
    pub fn kick(&mut self, desc_ind: u16) -> (notify: u32)
        requires
            old(self).wf(),
        ensures
            final(self).wf(),
            notify == old(self).queue_index,
            final(self).queue_index == old(self).queue_index,
            final(self).available.index as int == (old(self).available.index + 1) % 0x10000,
            final(self).available.ringbuf@ == old(self).available.ringbuf@.update(
                old(self).available.index as int % (VIRTQ_ENTRY_NUM as int),
                desc_ind,
            ),
            final(self).last_index as int == (old(self).last_index + 1) % 0x10000,
            final(self).descs == old(self).descs,
            final(self).used == old(self).used,
    {
        let slot = (self.available.index as usize) % VIRTQ_ENTRY_NUM;
        self.available.ringbuf[slot] = desc_ind;
        self.available.index = self.available.index.wrapping_add(1);
        self.last_index = self.last_index.wrapping_add(1);
        self.queue_index
    }

    /// Whether a published request is still in flight: the driver's
    /// progress counter runs ahead of the used index the device last
    /// wrote (which the boot layer reads volatile and passes in).
    pub fn is_busy(&self, device_used_index: u16) -> (r: bool)
        ensures
            r <==> self.last_index != device_used_index,
    {
        self.last_index != device_used_index
    }
}

} // verus!
