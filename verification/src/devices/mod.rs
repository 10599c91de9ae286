//! The device model: one [`Device`] trait, one implementation per device, and a [`Bus`] that
//! routes a guest access to the device that owns the address.
//!
//! The guest's devices are exactly: `virtio-blk` (one per disk), `virtio-vsock`, `virtio-mem`,
//! the 8250 serial console, and on x86_64 the CPU hot-plug controller and the two legacy ports
//! a Linux guest uses to power off and reset. All virtio devices sit on `virtio-mmio`. There is
//! no network device: [`DeviceKind`] has no variant for one and the virtio device ids the
//! monitor can construct exclude the network's.

pub mod block;
pub mod chain;
pub mod cpu_hotplug;
pub mod laws;
pub mod legacy;
pub mod mem;
pub mod mmio;
pub mod queue;
pub mod serial;
pub mod virtio;
pub mod vsock;

use crate::error::{Result, VmmError, VmmErrorView};
use crate::text::{cat5, hex0x, hex0x_text};
use vstd::prelude::*;

verus! {

/// A device on a bus: the guest reads and writes bytes at offsets within the device's window.
pub trait Device: Sized {
    /// The device's own consistency; a device may have none to speak of.
    open spec fn wf(&self) -> bool {
        true
    }

    /// Whether a read of `before.len()` bytes at `offset` may give `data` and leave `after`.
    /// A device that does not say promises nothing.
    open spec fn reads(
        &self,
        after: &Self,
        offset: u64,
        before: Seq<u8>,
        data: Seq<u8>,
    ) -> bool {
        true
    }

    /// Whether a write of `data` at `offset` may leave `after`. A device that does not say
    /// promises nothing.
    open spec fn writes(&self, after: &Self, offset: u64, data: Seq<u8>) -> bool {
        true
    }

    /// The device's name in diagnostics; a device that does not say leaves it open.
    open spec fn label(&self) -> Seq<char> {
        arbitrary()
    }

    /// A short name for diagnostics.
    fn name(&self) -> (r: &'static str)
        ensures
            r@ == self.label(),
    ;

    /// The guest reads `data.len()` bytes at `offset` within the device's window.
    fn read(&mut self, offset: u64, data: &mut [u8])
        requires
            old(self).wf(),
        ensures
            final(self).wf(),
            final(data)@.len() == old(data)@.len(),
            old(self).reads(final(self), offset, old(data)@, final(data)@),
    ;

    /// The guest writes `data` at `offset` within the device's window.
    fn write(&mut self, offset: u64, data: &[u8])
        requires
            old(self).wf(),
        ensures
            final(self).wf(),
            old(self).writes(final(self), offset, data@),
    ;
}

/// An interrupt line into the guest. On Linux an `eventfd` registered with `KVM_IRQFD`; in
/// tests a counter.
pub trait Irq: Sized {
    /// Whether raising the line once may come to `r` and leave `after`. A line that does not say
    /// promises nothing.
    open spec fn raised(&self, after: &Self, r: std::io::Result<()>) -> bool {
        true
    }

    /// Raise the line (edge).
    fn trigger(&mut self) -> (r: std::io::Result<()>)
        ensures
            old(self).raised(final(self), r),
    ;
}

/// Every kind of device the monitor can attach. There is no network kind.
#[derive(Clone, Copy, Debug, PartialEq, Eq, PartialOrd, Ord, Structural)]
pub enum DeviceKind {
    /// `virtio-blk`, one per disk.
    Block,
    /// `virtio-vsock`, the only channel to the host.
    Vsock,
    /// `virtio-mem`, memory hot-plug.
    Mem,
    /// The 8250 serial console.
    Serial,
    /// The x86_64 ACPI CPU hot-plug controller.
    CpuHotplug,
    /// The x86_64 i8042 reset port and ACPI sleep/reset registers.
    Legacy,
}

impl DeviceKind {
    /// Every kind.
    pub const ALL: [DeviceKind; 6] = [
        DeviceKind::Block,
        DeviceKind::Vsock,
        DeviceKind::Mem,
        DeviceKind::Serial,
        DeviceKind::CpuHotplug,
        DeviceKind::Legacy,
    ];

    /// The virtio device id, for the kinds that are virtio devices.
    pub open spec fn spec_virtio_id(self) -> Option<u32> {
        match self {
            DeviceKind::Block => Some(2),
            DeviceKind::Vsock => Some(19),
            DeviceKind::Mem => Some(24),
            _ => None,
        }
    }

    /// The virtio device id, for the kinds that are virtio devices.
    pub fn virtio_id(self) -> (r: Option<u32>)
        ensures
            r == self.spec_virtio_id(),
    {
        match self {
            DeviceKind::Block => Some(virtio::ID_BLOCK),
            DeviceKind::Vsock => Some(virtio::ID_VSOCK),
            DeviceKind::Mem => Some(virtio::ID_MEM),
            DeviceKind::Serial => None,
            DeviceKind::CpuHotplug => None,
            DeviceKind::Legacy => None,
        }
    }
}

/// No device the monitor can attach is a virtio network device (id 1).
pub proof fn law_no_network_device(k: DeviceKind)
    ensures
        k.spec_virtio_id() != Some(1u32),
{
}

/// Why the guest stopped, as the monitor learnt it.
#[derive(Clone, Debug, PartialEq, Eq)]
pub enum StopReason {
    /// The guest powered off (ACPI S5, PSCI `SYSTEM_OFF`).
    PowerOff,
    /// The guest reset (i8042, the ACPI reset register, PSCI `SYSTEM_RESET`, a triple fault).
    /// A one-run monitor never reboots: a reset ends the run.
    Reset,
    /// KVM reported a guest crash (`KVM_SYSTEM_EVENT_CRASH`).
    Crash,
    /// A peer on the control socket asked for the guest to be stopped.
    Killed,
    /// The monitor or the hypervisor failed.
    MonitorError(String),
}

/// A [`StopReason`] with its text as a character sequence.
#[verifier::ext_equal]
pub enum StopView {
    PowerOff,
    Reset,
    Crash,
    Killed,
    MonitorError(Seq<char>),
}

impl View for StopReason {
    type V = StopView;

    open spec fn view(&self) -> StopView {
        match *self {
            StopReason::PowerOff => StopView::PowerOff,
            StopReason::Reset => StopView::Reset,
            StopReason::Crash => StopView::Crash,
            StopReason::Killed => StopView::Killed,
            StopReason::MonitorError(m) => StopView::MonitorError(m@),
        }
    }
}

impl StopReason {
    /// The same reason again.
    pub fn copied(&self) -> (r: StopReason)
        ensures
            r@ == self@,
    {
        match self {
            StopReason::PowerOff => StopReason::PowerOff,
            StopReason::Reset => StopReason::Reset,
            StopReason::Crash => StopReason::Crash,
            StopReason::Killed => StopReason::Killed,
            StopReason::MonitorError(m) => StopReason::MonitorError(m.clone()),
        }
    }
}

/// A one-shot latch: the first reason recorded wins, later ones are ignored.
pub struct StopSignal {
    reason: Option<StopReason>,
}

impl View for StopSignal {
    type V = Option<StopView>;

    closed spec fn view(&self) -> Option<StopView> {
        match self.reason {
            Some(r) => Some(r@),
            None => None,
        }
    }
}

/// The latch after `reason` was requested.
pub open spec fn latched(before: Option<StopView>, reason: StopView) -> Option<StopView> {
    match before {
        Some(r) => Some(r),
        None => Some(reason),
    }
}

impl Default for StopSignal {
    fn default() -> (s: Self)
        ensures
            s@ is None,
    {
        StopSignal { reason: None }
    }
}

impl StopSignal {
    /// Record `reason` if nothing was recorded before; true if this call recorded it.
    pub fn request(&mut self, reason: StopReason) -> (first: bool)
        ensures
            first == (old(self)@ is None),
            final(self)@ == latched(old(self)@, reason@),
    {
        if self.reason.is_some() {
            return false;
        }
        self.reason = Some(reason);
        true
    }

    /// True once a reason has been recorded.
    pub fn is_stopped(&self) -> (r: bool)
        ensures
            r == (self@ is Some),
    {
        self.reason.is_some()
    }

    /// The recorded reason.
    pub fn reason(&self) -> (r: Option<StopReason>)
        ensures
            match r {
                Some(x) => self@ == Some(x@),
                None => self@ is None,
            },
    {
        match &self.reason {
            Some(r) => Some(r.copied()),
            None => None,
        }
    }
}

/// The first reason recorded stays, whatever is requested after it.
pub proof fn law_first_reason_wins(first: StopView, second: StopView)
    ensures
        latched(latched(None, first), second) == Some(first),
{
}

/// One attached device.
pub struct BusEntry<D> {
    /// The first address it owns.
    pub base: u64,
    /// How many addresses it owns.
    pub len: u64,
    /// The device.
    pub dev: D,
}

/// An address space (MMIO or port IO) mapping ranges to devices. Ranges never overlap:
/// [`Bus::insert`] refuses an overlapping range.
pub struct Bus<D: Device> {
    entries: Vec<BusEntry<D>>,
}

impl<D: Device> View for Bus<D> {
    type V = Seq<BusEntry<D>>;

    closed spec fn view(&self) -> Seq<BusEntry<D>> {
        self.entries@
    }
}

/// Whether two ranges share an address.
pub open spec fn overlap(a: u64, alen: u64, b: u64, blen: u64) -> bool {
    a < b + blen && b < a + alen
}

/// Whether entry `i` owns `addr`.
pub open spec fn owns<D>(s: Seq<BusEntry<D>>, i: int, addr: u64) -> bool {
    0 <= i < s.len() && s[i].base <= addr < s[i].base + s[i].len
}

/// Whether some entry owns `addr`.
pub open spec fn owned<D>(s: Seq<BusEntry<D>>, addr: u64) -> bool {
    exists|i: int| #[trigger] owns(s, i, addr)
}

/// Ranges are not empty, end within the address space and ascend without overlap.
pub open spec fn in_order<D>(s: Seq<BusEntry<D>>) -> bool {
    &&& forall|i: int|
        0 <= i < s.len() ==> (#[trigger] s[i]).len > 0 && s[i].base + s[i].len <= u64::MAX
    &&& forall|i: int, j: int|
        0 <= i < j < s.len() ==> (#[trigger] s[i]).base + s[i].len <= (#[trigger] s[j]).base
}

impl<D: Device> Default for Bus<D> {
    fn default() -> (b: Self)
        ensures
            b@.len() == 0,
            b.wf(),
    {
        Bus { entries: Vec::new() }
    }
}

impl<D: Device> Bus<D> {
    /// The ranges are in order and the devices consistent.
    pub closed spec fn wf(&self) -> bool {
        &&& in_order(self@)
        &&& forall|i: int| 0 <= i < self@.len() ==> (#[trigger] self@[i]).dev.wf()
    }

    /// The ranges of a bus never overlap, so an address belongs to at most one device.
    pub proof fn law_ranges_never_overlap(&self)
        requires
            self.wf(),
        ensures
            in_order(self@),
            forall|i: int, j: int|
                0 <= i < self@.len() && 0 <= j < self@.len() && i != j ==> !overlap(
                    (#[trigger] self@[i]).base,
                    self@[i].len,
                    (#[trigger] self@[j]).base,
                    self@[j].len,
                ),
            forall|i: int, j: int, a: u64|
                #[trigger] owns(self@, i, a) && #[trigger] owns(self@, j, a) ==> i == j,
    {
        assert forall|i: int, j: int|
            0 <= i < self@.len() && 0 <= j < self@.len() && i != j implies !overlap(
            (#[trigger] self@[i]).base,
            self@[i].len,
            (#[trigger] self@[j]).base,
            self@[j].len,
        ) by {
            if i < j {
            } else {
                assert(self@[j].base + self@[j].len <= self@[i].base);
            }
        }
        assert forall|i: int, j: int, a: u64|
            #[trigger] owns(self@, i, a) && #[trigger] owns(self@, j, a) implies i == j by {
            if i < j {
                assert(self@[i].base + self@[i].len <= self@[j].base);
            } else if j < i {
                assert(self@[j].base + self@[j].len <= self@[i].base);
            }
        }
    }

    /// How many entries start before `end`.
    fn starting_before(&self, end: u64) -> (n: usize)
        requires
            self.wf(),
        ensures
            n <= self@.len(),
            forall|i: int| 0 <= i < n ==> (#[trigger] self@[i]).base < end,
            forall|i: int| n <= i < self@.len() ==> (#[trigger] self@[i]).base >= end,
    {
        let mut n: usize = 0;
        while n < self.entries.len() && self.entries[n].base < end
            invariant
                n <= self.entries@.len(),
                forall|i: int| 0 <= i < n ==> (#[trigger] self.entries@[i]).base < end,
            decreases self.entries@.len() - n,
        {
            n += 1;
        }
        assert forall|i: int| n <= i < self@.len() implies (#[trigger] self@[i]).base >= end by {
            if n < i {
                assert(self@[n as int].base + self@[n as int].len <= self@[i].base);
            }
        }
        n
    }

    /// Attach `dev` at `[base, base + len)`.
    pub fn insert(&mut self, base: u64, len: u64, dev: D) -> (r: Result<()>)
        requires
            old(self).wf(),
            dev.wf(),
        ensures
            final(self).wf(),
            r is Ok <==> len > 0 && base + len <= u64::MAX && forall|i: int|
                0 <= i < old(self)@.len() ==> !overlap(
                    base,
                    len,
                    (#[trigger] old(self)@[i]).base,
                    old(self)@[i].len,
                ),
            r is Ok ==> exists|p: int|
                0 <= p <= old(self)@.len() && final(self)@ == #[trigger] old(self)@.insert(
                    p,
                    BusEntry { base, len, dev },
                ),
            r is Err ==> final(self)@ == old(self)@,
            r matches Err(e) ==> e@ == (VmmErrorView::Device {
                device: "bus"@,
                msg: if len == 0 {
                    "zero-length range"@
                } else if base + len > u64::MAX {
                    "range overflows"@
                } else {
                    "range "@ + hex0x(base as nat) + "+"@ + hex0x(len as nat)
                        + " overlaps an attached device"@
                },
            }),
    {
        let ghost before = self@;
        if len == 0 {
            return Err(VmmError::device("bus", "zero-length range"));
        }
        let end: u64 = match base.checked_add(len) {
            Some(e) => e,
            None => {
                return Err(VmmError::device("bus", "range overflows"));
            },
        };
        let n = self.starting_before(end);
        if n > 0 && self.entries[n - 1].base + self.entries[n - 1].len > base {
            assert(overlap(base, len, before[n - 1].base, before[n - 1].len));
            let b = hex0x_text(base);
            let l = hex0x_text(len);
            let msg = cat5("range ", &b, "+", &l, " overlaps an attached device");
            return Err(VmmError::device("bus", &msg));
        }
        assert forall|i: int| 0 <= i < before.len() implies !overlap(
            base,
            len,
            (#[trigger] before[i]).base,
            before[i].len,
        ) by {
            if i < n - 1 {
                assert(before[i].base + before[i].len <= before[n - 1].base);
            }
        }
        self.entries.insert(n, BusEntry { base, len, dev });
        proof {
            let s = self@;
            assert(s == before.insert(n as int, BusEntry { base, len, dev }));
            assert forall|i: int, j: int| 0 <= i < j < s.len() implies (#[trigger] s[i]).base
                + s[i].len <= (#[trigger] s[j]).base by {
                let oi = if i < n { i } else { i - 1 };
                let oj = if j < n { j } else { j - 1 };
                if i == n {
                    assert(s[j] == before[oj]);
                } else if j == n {
                    assert(s[i] == before[oi]);
                    if oi < n - 1 {
                        assert(before[oi].base + before[oi].len <= before[n - 1].base);
                    }
                } else {
                    assert(s[i] == before[oi] && s[j] == before[oj]);
                }
            }
            assert forall|i: int| 0 <= i < s.len() implies (#[trigger] s[i]).len > 0 && s[i].base
                + s[i].len <= u64::MAX && s[i].dev.wf() by {
                if i != n {
                    let oi = if i < n { i } else { i - 1 };
                    assert(s[i] == before[oi]);
                }
            }
        }
        Ok(())
    }

    /// Where the device owning `addr` is.
    fn locate(&self, addr: u64) -> (r: Option<usize>)
        requires
            self.wf(),
        ensures
            r matches Some(i) ==> owns(self@, i as int, addr),
            r is None <==> !owned(self@, addr),
    {
        let n: usize = if addr == u64::MAX {
            self.entries.len()
        } else {
            self.starting_before(addr + 1)
        };
        if n > 0 && addr < self.entries[n - 1].base + self.entries[n - 1].len {
            assert(self@[n - 1].base <= addr);
            assert(owns(self@, n - 1, addr));
            return Some(n - 1);
        }
        assert forall|i: int| !owns(self@, i, addr) by {
            if owns(self@, i, addr) {
                assert(i < n);
                if i < n - 1 {
                    assert(self@[i].base + self@[i].len <= self@[n - 1].base);
                }
            }
        }
        None
    }

    /// The device owning `addr` and the offset of `addr` within it.
    pub fn find(&self, addr: u64) -> (r: Option<(&D, u64)>)
        requires
            self.wf(),
        ensures
            r is Some <==> owned(self@, addr),
            r matches Some((d, off)) ==> exists|i: int| #[trigger]
                owns(self@, i, addr) && *d == self@[i].dev && off == addr - self@[i].base,
    {
        match self.locate(addr) {
            Some(i) => Some((&self.entries[i].dev, addr - self.entries[i].base)),
            None => None,
        }
    }

    /// Route a guest read; an access to no device reads as all ones (as on real hardware)
    /// and returns false.
    pub fn read(&mut self, addr: u64, data: &mut [u8]) -> (there: bool)
        requires
            old(self).wf(),
        ensures
            final(self).wf(),
            there == owned(old(self)@, addr),
            !there ==> final(self)@ == old(self)@ && final(data)@ == Seq::new(
                old(data)@.len(),
                |i: int| 0xffu8,
            ),
            there ==> exists|i: int| #[trigger]
                owns(old(self)@, i, addr) && only_device_changed(old(self)@, final(self)@, i)
                    && old(self)@[i].dev.reads(
                    &final(self)@[i].dev,
                    (addr - old(self)@[i].base) as u64,
                    old(data)@,
                    final(data)@,
                ),
    {
        let ghost before = self@;
        match self.locate(addr) {
            Some(i) => {
                let off = addr - self.entries[i].base;
                self.entries[i].dev.read(off, data);
                assert(owns(before, i as int, addr));
                assert(only_device_changed(before, self@, i as int));
                assert(in_order(self@)) by {
                    assert forall|a: int, b: int| 0 <= a < b < self@.len() implies (
                    #[trigger] self@[a]).base + self@[a].len <= (#[trigger] self@[b]).base by {
                        assert(before[a].base + before[a].len <= before[b].base);
                    }
                    assert forall|a: int| 0 <= a < self@.len() implies (#[trigger] self@[a]).len
                        > 0 && self@[a].base + self@[a].len <= u64::MAX by {
                        assert(before[a].len > 0);
                    }
                }
                true
            },
            None => {
                ones_fill(data);
                false
            },
        }
    }

    /// Route a guest write; a write to no device is dropped and returns false.
    pub fn write(&mut self, addr: u64, data: &[u8]) -> (there: bool)
        requires
            old(self).wf(),
        ensures
            final(self).wf(),
            there == owned(old(self)@, addr),
            !there ==> final(self)@ == old(self)@,
            there ==> exists|i: int| #[trigger]
                owns(old(self)@, i, addr) && only_device_changed(old(self)@, final(self)@, i)
                    && old(self)@[i].dev.writes(
                    &final(self)@[i].dev,
                    (addr - old(self)@[i].base) as u64,
                    data@,
                ),
    {
        let ghost before = self@;
        match self.locate(addr) {
            Some(i) => {
                let off = addr - self.entries[i].base;
                self.entries[i].dev.write(off, data);
                assert(owns(before, i as int, addr));
                assert(only_device_changed(before, self@, i as int));
                assert(in_order(self@)) by {
                    assert forall|a: int, b: int| 0 <= a < b < self@.len() implies (
                    #[trigger] self@[a]).base + self@[a].len <= (#[trigger] self@[b]).base by {
                        assert(before[a].base + before[a].len <= before[b].base);
                    }
                    assert forall|a: int| 0 <= a < self@.len() implies (#[trigger] self@[a]).len
                        > 0 && self@[a].base + self@[a].len <= u64::MAX by {
                        assert(before[a].len > 0);
                    }
                }
                true
            },
            None => false,
        }
    }

    /// Number of attached devices.
    pub fn len(&self) -> (n: usize)
        ensures
            n == self@.len(),
    {
        self.entries.len()
    }

    /// True when nothing is attached.
    pub fn is_empty(&self) -> (r: bool)
        ensures
            r == (self@.len() == 0),
    {
        self.entries.len() == 0
    }
}

/// Whether nothing but the device of entry `i` differs.
pub open spec fn only_device_changed<D>(
    before: Seq<BusEntry<D>>,
    after: Seq<BusEntry<D>>,
    i: int,
) -> bool {
    &&& after.len() == before.len()
    &&& after[i].base == before[i].base
    &&& after[i].len == before[i].len
    &&& forall|j: int| 0 <= j < after.len() && j != i ==> #[trigger] after[j] == before[j]
}

/// Set every byte to ones.
pub fn ones_fill(data: &mut [u8])
    ensures
        final(data)@ == Seq::new(old(data)@.len(), |i: int| 0xffu8),
{
    let n = data.len();
    let mut i: usize = 0;
    while i < n
        invariant
            i <= n,
            n == data@.len(),
            n == old(data)@.len(),
            forall|j: int| 0 <= j < i ==> #[trigger] data@[j] == 0xffu8,
        decreases n - i,
    {
        data[i] = 0xff;
        i += 1;
    }
    assert(data@ =~= Seq::new(old(data)@.len(), |i: int| 0xffu8));
}

/// Set every byte to 0.
pub fn zero_fill(data: &mut [u8])
    ensures
        final(data)@ == Seq::new(old(data)@.len(), |i: int| 0u8),
{
    let n = data.len();
    let mut i: usize = 0;
    while i < n
        invariant
            i <= n,
            n == data@.len(),
            n == old(data)@.len(),
            forall|j: int| 0 <= j < i ==> #[trigger] data@[j] == 0u8,
        decreases n - i,
    {
        data[i] = 0;
        i += 1;
    }
    assert(data@ =~= Seq::new(old(data)@.len(), |i: int| 0u8));
}

} // verus!
