//! `FakeAllocator`: an arena that accounts for the memory a heap gives it.
//!
//! A release is attributed by the token that its bytes carry, never by their address: a heap
//! hands addresses out again, so bytes released late could lie inside another live region.

use crate::error::{MorunaError, MorunaErrorView, Tier, MAX_DEVICES};
use crate::sorted_map::SortedMap;
use vstd::arithmetic::power2::*;
use vstd::prelude::*;

verus! {

/// The alignment of regions smaller than a page.
pub const ALIGNMENT: usize = 64;

/// The token of bytes that carry none.
pub const NO_TOKEN: u64 = 0;

/// A region this allocator handed out.
#[derive(Clone, Copy, Debug, PartialEq, Eq, Structural)]
pub struct Region {
    /// Its address.
    pub base: usize,
    /// Its length.
    pub len: usize,
    /// The alignment it was asked for with.
    pub align: usize,
    /// Its tier.
    pub tier: Tier,
    /// Bytes not yet released; the region goes back when there are none.
    pub outstanding: usize,
}

/// What is asked of the heap.
#[derive(Clone, Copy, Debug, PartialEq, Eq, Structural)]
pub struct Request {
    /// The length.
    pub len: usize,
    /// The alignment.
    pub align: usize,
}

/// Bytes of a region.
#[derive(Clone, Copy, Debug, PartialEq, Eq, Structural)]
pub struct Block {
    /// Their address.
    pub ptr: usize,
    /// Their length.
    pub len: usize,
    /// Their tier.
    pub tier: Tier,
    /// What names their region.
    pub token: u64,
}

/// Why a release was not honoured.
#[derive(Clone, Copy, Debug, PartialEq, Eq, Structural)]
pub enum Refusal {
    /// The bytes carry no token.
    Untagged,
    /// The region has gone.
    Gone,
    /// The bytes lie outside the region.
    Outside,
    /// There are more bytes than the region has left.
    TooMany,
}

/// What a release did.
#[derive(Clone, Copy, Debug, PartialEq, Eq, Structural)]
pub enum Release {
    /// There were no bytes.
    Nothing,
    /// It was counted and not honoured.
    Refused(Refusal),
    /// Other bytes of the region are still out.
    Kept,
    /// These were the last bytes: the heap is given the region back.
    Freed(Region),
}

/// What an allocator has done so far.
#[derive(Debug)]
pub struct AllocStats {
    /// Bytes in use in host memory.
    pub host_in_use: u64,
    /// Bytes in use in page-locked memory.
    pub pinned_in_use: u64,
    /// Bytes in use on each device.
    pub device_in_use: Vec<u64>,
    /// Successful allocations.
    pub allocations_total: u64,
    /// Payload bytes copied with the CPU.
    pub payload_copies_total: u64,
    /// Bytes copied once at the boundary.
    pub boundary_copies_total: u64,
}

/// The arena as a test sees it.
pub struct FakeAllocator {
    /// Live regions by token.
    pub regions: SortedMap<Region>,
    /// The tokens of live regions by address.
    pub by_addr: SortedMap<u64>,
    /// The last token given out.
    pub next_token: u64,
    /// Releases that were not honoured.
    pub refused: u64,
    /// Bytes in use in host memory.
    pub host_in_use: u64,
    /// Bytes in use in page-locked memory.
    pub pinned_in_use: u64,
    /// Bytes in use on each device.
    pub device_in_use: Vec<u64>,
    /// Allocations still to fail.
    pub failing: u64,
    /// Successful allocations.
    pub allocations: u64,
    /// Payload bytes copied with the CPU.
    pub payload: u64,
    /// Bytes copied once at the boundary.
    pub boundary: u64,
    /// The caps of tiers, by [`slot`].
    pub limits: SortedMap<u64>,
    /// The page size.
    pub page: usize,
    /// Whether host memory is page-locked.
    pub is_pinned: bool,
}

/// A number of its own for each tier that can be capped.
pub open spec fn slot(tier: Tier) -> u64 {
    match tier {
        Tier::Host => 0,
        Tier::PinnedHost => 1,
        Tier::Device(d) => (2 + d) as u64,
        Tier::Disk(_) => 1000,
        Tier::Remote(_, _) => 1001,
    }
}

fn slot_of(tier: Tier) -> (n: u64)
    ensures
        n == slot(tier),
{
    match tier {
        Tier::Host => 0,
        Tier::PinnedHost => 1,
        Tier::Device(d) => 2 + d as u64,
        Tier::Disk(_) => 1000,
        Tier::Remote(_, _) => 1001,
    }
}

/// Whether a tier is one whose use can be counted: a device has to be one of the run's.
pub open spec fn known(tier: Tier) -> bool {
    match tier {
        Tier::Device(d) => d < MAX_DEVICES,
        _ => true,
    }
}

/// A length rounded up to a multiple of an alignment.
pub open spec fn rounded_up(len: int, align: int) -> int {
    (len + align - 1) / align * align
}

/// Whether the heap can be asked for a region.
pub open spec fn askable(len: usize, align: usize) -> bool {
    is_pow2_exists(align as int) && rounded_up(len as int, align as int) <= isize::MAX
}

/// `std::alloc::Layout::from_size_align`: succeeds where the alignment is a power of two and
/// the length, rounded up to it, is at most `isize::MAX`.
#[verifier::external_body]
fn layout_exists(len: usize, align: usize) -> (r: bool)
    ensures
        r == askable(len, align),
{
    std::alloc::Layout::from_size_align(len, align).is_ok()
}

/// The bytes a region has out in a tier, if the region is live and in the tier.
pub open spec fn out_in(regions: Map<u64, Region>, tier: Tier, token: u64) -> int {
    if regions.dom().contains(token) && regions[token].tier == tier {
        regions[token].outstanding as int
    } else {
        0
    }
}

/// The bytes that the regions of the first `n` tokens have out in a tier.
pub open spec fn total_out(regions: Map<u64, Region>, tier: Tier, n: nat) -> int
    decreases n,
{
    if n == 0 {
        0
    } else {
        total_out(regions, tier, (n - 1) as nat) + out_in(regions, tier, n as u64)
    }
}

/// A change of one region changes the total by as much as it changes that region's bytes.
proof fn lemma_total_changes(
    before: Map<u64, Region>,
    after: Map<u64, Region>,
    tier: Tier,
    token: u64,
    n: nat,
)
    requires
        n <= u64::MAX,
        forall|t: u64| t != token ==> #[trigger] out_in(before, tier, t) == out_in(after, tier, t),
    ensures
        total_out(after, tier, n) == total_out(before, tier, n) + if 1 <= token <= n {
            out_in(after, tier, token) - out_in(before, tier, token)
        } else {
            0
        },
    decreases n,
{
    if n > 0 {
        lemma_total_changes(before, after, tier, token, (n - 1) as nat);
        assert(n as u64 != token ==> out_in(before, tier, n as u64) == out_in(after, tier, n as u64));
    }
}

/// The bytes in use in a tier, given those of host memory, page-locked memory and the devices.
pub open spec fn use_in(host: u64, pinned: u64, devices: Seq<u64>, tier: Tier) -> u64 {
    match tier {
        Tier::Host => host,
        Tier::PinnedHost => pinned,
        Tier::Device(d) => devices[d as int],
        Tier::Disk(_) | Tier::Remote(_, _) => 0,
    }
}

impl Default for FakeAllocator {
    fn default() -> (a: Self)
        ensures
            a.wf(),
            a.balanced(),
            a.regions@ == Map::<u64, Region>::empty(),
            a.limits@ == Map::<u64, u64>::empty(),
            a.next_token == 0,
            a.refused == 0,
            a.failing == 0,
            a.allocations == 0,
            a.payload == 0,
            a.boundary == 0,
            a.page == 4096,
            !a.is_pinned,
            forall|tier: Tier| known(tier) ==> #[trigger] a.used(tier) == 0,
    {
        FakeAllocator::new()
    }
}

impl FakeAllocator {
    /// The bytes in use in a tier.
    #[verifier::inline]
    pub open spec fn used(&self, tier: Tier) -> u64 {
        use_in(self.host_in_use, self.pinned_in_use, self.device_in_use@, tier)
    }

    /// The tables agree: every live region has a token that was given out and some bytes out,
    /// and is found by its address; regions do not overlap.
    pub open spec fn wf(&self) -> bool {
        &&& self.regions.wf()
        &&& self.by_addr.wf()
        &&& self.limits.wf()
        &&& self.device_in_use@.len() == MAX_DEVICES
        &&& forall|t: u64| #[trigger]
            self.regions@.dom().contains(t) ==> {
                let r = self.regions@[t];
                &&& 1 <= t <= self.next_token
                &&& 1 <= r.outstanding <= r.len
                &&& r.base + r.len <= usize::MAX
                &&& self.by_addr@.dom().contains(r.base as u64)
                &&& self.by_addr@[r.base as u64] == t
            }
        &&& forall|a: u64| #[trigger]
            self.by_addr@.dom().contains(a) ==> self.regions@.dom().contains(self.by_addr@[a])
                && self.regions@[self.by_addr@[a]].base == a
        &&& forall|s: u64, t: u64| #[trigger]
            self.regions@.dom().contains(s) && #[trigger] self.regions@.dom().contains(t) && s != t
                ==> disjoint(self.regions@[s], self.regions@[t])
    }

    /// What is counted as in use is what the live regions have out.
    pub open spec fn balanced(&self) -> bool {
        forall|tier: Tier|
            tier.resident() && known(tier) ==> #[trigger] self.used(tier) == total_out(
                self.regions@,
                tier,
                self.next_token as nat,
            )
    }

    /// Whether memory at `base` overlaps no live region.
    pub open spec fn free_at(&self, base: usize, len: usize) -> bool {
        forall|t: u64| #[trigger]
            self.regions@.dom().contains(t) ==> base + len <= self.regions@[t].base
                || self.regions@[t].base + self.regions@[t].len <= base
    }

    /// Whether an address lies in a live region of `tier`.
    pub open spec fn holds(&self, address: usize, tier: Tier) -> bool {
        exists|t: u64| #[trigger]
            self.regions@.dom().contains(t) && self.regions@[t].base <= address
                < self.regions@[t].base + self.regions@[t].len && self.regions@[t].tier == tier
    }

    /// An allocator with no limits, a 4096-byte page and an unpinned host tier.
    pub fn new() -> (a: Self)
        ensures
            a.wf(),
            a.balanced(),
            a.regions@ == Map::<u64, Region>::empty(),
            a.limits@ == Map::<u64, u64>::empty(),
            a.next_token == 0,
            a.refused == 0,
            a.failing == 0,
            a.allocations == 0,
            a.payload == 0,
            a.boundary == 0,
            a.page == 4096,
            !a.is_pinned,
            forall|tier: Tier| known(tier) ==> #[trigger] a.used(tier) == 0,
    {
        let mut device_in_use: Vec<u64> = Vec::new();
        while device_in_use.len() < MAX_DEVICES
            invariant
                device_in_use@.len() <= MAX_DEVICES,
                forall|i: int| 0 <= i < device_in_use@.len() ==> #[trigger] device_in_use@[i] == 0,
            decreases MAX_DEVICES - device_in_use@.len(),
        {
            device_in_use.push(0);
        }
        FakeAllocator {
            regions: SortedMap::new(),
            by_addr: SortedMap::new(),
            next_token: 0,
            refused: 0,
            host_in_use: 0,
            pinned_in_use: 0,
            device_in_use,
            failing: 0,
            allocations: 0,
            payload: 0,
            boundary: 0,
            limits: SortedMap::new(),
            page: 4096,
            is_pinned: false,
        }
    }

    /// Knob: cap `tier` at `bytes`; an allocation that would exceed it fails.
    pub fn with_limit(self, tier: Tier, bytes: u64) -> (a: Self)
        requires
            self.wf(),
        ensures
            a.wf(),
            a.limits@ == self.limits@.insert(slot(tier), bytes),
            a.same_but_knobs(&self),
            a.failing == self.failing,
            a.page == self.page,
            a.is_pinned == self.is_pinned,
    {
        let mut a = self;
        a.limits.insert(slot_of(tier), bytes);
        a
    }

    /// Whether all but the knobs is unchanged.
    pub open spec fn same_but_knobs(&self, before: &Self) -> bool {
        &&& self.regions == before.regions
        &&& self.by_addr == before.by_addr
        &&& self.next_token == before.next_token
        &&& self.refused == before.refused
        &&& self.host_in_use == before.host_in_use
        &&& self.pinned_in_use == before.pinned_in_use
        &&& self.device_in_use == before.device_in_use
        &&& self.allocations == before.allocations
        &&& self.payload == before.payload
        &&& self.boundary == before.boundary
    }

    /// Knob: whether the host tier is page-locked.
    pub fn pinned(self, pinned: bool) -> (a: Self)
        ensures
            a == (FakeAllocator { is_pinned: pinned, ..self }),
    {
        let mut a = self;
        a.is_pinned = pinned;
        a
    }

    /// Knob: the page size, to which large allocations are aligned.
    pub fn page_bytes(self, bytes: usize) -> (a: Self)
        ensures
            a == (FakeAllocator { page: bytes, ..self }),
    {
        let mut a = self;
        a.page = bytes;
        a
    }

    /// Knob: fail the next `n` allocations, whatever the tier, besides those already to fail.
    pub fn fail_next(self, n: u64) -> (a: Self)
        ensures
            a.failing as int == if self.failing + n <= u64::MAX {
                self.failing + n
            } else {
                u64::MAX as int
            },
            a == (FakeAllocator { failing: a.failing, ..self }),
    {
        let mut a = self;
        a.failing = a.failing.saturating_add(n);
        a
    }

    /// Observable: payload bytes copied with the CPU.
    pub fn payload_copies(&self) -> (n: u64)
        ensures
            n == self.payload,
    {
        self.payload
    }

    /// Observable: bytes copied once at the boundary.
    pub fn boundary_copies(&self) -> (n: u64)
        ensures
            n == self.boundary,
    {
        self.boundary
    }

    /// Observable: successful allocations.
    pub fn allocations_total(&self) -> (n: u64)
        ensures
            n == self.allocations,
    {
        self.allocations
    }

    /// Observable: releases that were not honoured.
    pub fn refused_releases(&self) -> (n: u64)
        ensures
            n == self.refused,
    {
        self.refused
    }

    /// Observable: regions handed out and not yet taken back.
    pub fn live_regions(&self) -> (n: usize)
        requires
            self.wf(),
        ensures
            n == self.regions@.dom().len(),
    {
        self.regions.len()
    }

    /// Observable: bytes in use in one tier.
    pub fn in_use(&self, tier: Tier) -> (n: u64)
        requires
            self.wf(),
            known(tier),
        ensures
            n == self.used(tier),
    {
        match tier {
            Tier::Host => self.host_in_use,
            Tier::PinnedHost => self.pinned_in_use,
            Tier::Device(d) => self.device_in_use[d as usize],
            Tier::Disk(_) | Tier::Remote(_, _) => 0,
        }
    }

    /// The run's one host tier.
    pub fn host_tier(&self) -> (t: Tier)
        ensures
            t == if self.is_pinned {
                Tier::PinnedHost
            } else {
                Tier::Host
            },
    {
        if self.is_pinned {
            Tier::PinnedHost
        } else {
            Tier::Host
        }
    }
}

/// Whether two regions do not overlap.
pub open spec fn disjoint(a: Region, b: Region) -> bool {
    a.base + a.len <= b.base || b.base + b.len <= a.base
}

/// The length asked of the heap for an allocation of `bytes`.
pub open spec fn asked_len(bytes: usize) -> usize {
    if bytes == 0 {
        1
    } else {
        bytes
    }
}

/// A total is at least each of its parts.
proof fn lemma_total_covers(regions: Map<u64, Region>, tier: Tier, token: u64, n: nat)
    requires
        n <= u64::MAX,
    ensures
        0 <= total_out(regions, tier, n),
        1 <= token <= n ==> out_in(regions, tier, token) <= total_out(regions, tier, n),
    decreases n,
{
    if n > 0 {
        lemma_total_covers(regions, tier, token, (n - 1) as nat);
    }
}

impl FakeAllocator {
    /// What the heap is asked for by an allocation, or the budget and the use that its refusal
    /// names.
    pub open spec fn verdict(&self, bytes: usize, tier: Tier) -> Result<Request, (u64, u64)> {
        let len = asked_len(bytes);
        let align = if len >= self.page {
            self.page
        } else {
            ALIGNMENT
        };
        if self.failing > 0 {
            Err((0, self.used(tier)))
        } else if !tier.resident() {
            Err((0, 0))
        } else if self.limits@.dom().contains(slot(tier)) && self.used(tier) + len > self.limits@[slot(
            tier,
        )] {
            Err((self.limits@[slot(tier)], self.used(tier)))
        } else if !askable(len, align) {
            Err((0, 0))
        } else {
            Ok(Request { len, align })
        }
    }

    /// Whether all is unchanged but how many allocations are still to fail, which is one less
    /// where there were any.
    pub open spec fn tried(&self, before: &Self) -> bool {
        *self == (FakeAllocator {
            failing: if before.failing > 0 {
                (before.failing - 1) as u64
            } else {
                0
            },
            ..*before
        })
    }

    /// What the heap is asked for by an allocation of `bytes` in `tier`.
    pub fn request(&mut self, bytes: usize, tier: Tier) -> (r: Result<Request, MorunaError>)
        requires
            old(self).wf(),
            known(tier),
            old(self).used(tier) + asked_len(bytes) <= u64::MAX,
        ensures
            final(self).tried(old(self)),
            match old(self).verdict(bytes, tier) {
                Ok(q) => r == Ok::<Request, MorunaError>(q),
                Err((budget, in_use)) => r is Err && r->Err_0@ == (MorunaErrorView::Alloc {
                    bytes: bytes as u64,
                    tier,
                    budget,
                    in_use,
                }),
            },
    {
        let len = if bytes == 0 {
            1
        } else {
            bytes
        };
        let in_use = self.in_use(tier);
        if self.failing > 0 {
            self.failing = self.failing - 1;
            return Err(MorunaError::Alloc { bytes: bytes as u64, tier, budget: 0, in_use });
        }
        if !tier.is_resident() {
            return Err(MorunaError::Alloc { bytes: bytes as u64, tier, budget: 0, in_use: 0 });
        }
        if let Some(limit) = self.limits.get(slot_of(tier)) {
            let budget = *limit;
            if in_use + len as u64 > budget {
                return Err(MorunaError::Alloc { bytes: bytes as u64, tier, budget, in_use });
            }
        }
        let align = if len >= self.page {
            self.page
        } else {
            ALIGNMENT
        };
        if !layout_exists(len, align) {
            return Err(MorunaError::Alloc { bytes: bytes as u64, tier, budget: 0, in_use: 0 });
        }
        Ok(Request { len, align })
    }

    fn set_use(&mut self, tier: Tier, n: u64)
        requires
            old(self).wf(),
            known(tier),
            tier.resident(),
        ensures
            final(self).used(tier) == n,
            forall|t: Tier|
                t != tier && known(t) ==> #[trigger] final(self).used(t) == old(self).used(t),
            final(self).device_in_use@.len() == MAX_DEVICES,
            *final(self) == (FakeAllocator {
                host_in_use: final(self).host_in_use,
                pinned_in_use: final(self).pinned_in_use,
                device_in_use: final(self).device_in_use,
                ..*old(self)
            }),
    {
        match tier {
            Tier::Host => {
                self.host_in_use = n;
            },
            Tier::PinnedHost => {
                self.pinned_in_use = n;
            },
            Tier::Device(d) => {
                self.device_in_use.set(d as usize, n);
            },
            Tier::Disk(_) | Tier::Remote(_, _) => {},
        }
    }

    /// Take a region that the heap gave at `base`. It gets a token that no region had before.
    pub fn grant(&mut self, request: Request, tier: Tier, base: usize) -> (b: Block)
        requires
            old(self).wf(),
            known(tier),
            tier.resident(),
            request.len >= 1,
            base + request.len <= usize::MAX,
            old(self).free_at(base, request.len),
            old(self).next_token < u64::MAX,
            old(self).used(tier) + request.len <= u64::MAX,
        ensures
            final(self).wf(),
            old(self).balanced() ==> final(self).balanced(),
            b == (Block {
                ptr: base,
                len: request.len,
                tier,
                token: (old(self).next_token + 1) as u64,
            }),
            !old(self).regions@.dom().contains(b.token),
            final(self).next_token == old(self).next_token + 1,
            final(self).regions@ == old(self).regions@.insert(
                b.token,
                (Region {
                    base,
                    len: request.len,
                    align: request.align,
                    tier,
                    outstanding: request.len,
                }),
            ),
            final(self).used(tier) == old(self).used(tier) + request.len,
            forall|t: Tier|
                t != tier && known(t) ==> #[trigger] final(self).used(t) == old(self).used(t),
            final(self).allocations as int == (old(self).allocations + 1)
                % 0x1_0000_0000_0000_0000,
            final(self).same_knobs(old(self)),
            final(self).refused == old(self).refused,
    {
        let ghost before = *self;
        let n = self.in_use(tier) + request.len as u64;
        self.set_use(tier, n);
        self.next_token = self.next_token + 1;
        let token = self.next_token;
        let region = Region {
            base,
            len: request.len,
            align: request.align,
            tier,
            outstanding: request.len,
        };
        proof {
            assert forall|a: u64| before.by_addr@.dom().contains(a) implies a != base as u64 by {
                let t = before.by_addr@[a];
                assert(before.regions@.dom().contains(t));
                assert(before.regions@[t].outstanding <= before.regions@[t].len);
            }
        }
        self.regions.insert(token, region);
        self.by_addr.insert(base as u64, token);
        self.allocations = self.allocations.wrapping_add(1);
        proof {
            if before.balanced() {
                assert forall|t: Tier| t.resident() && known(t) implies #[trigger] self.used(t)
                    == total_out(self.regions@, t, self.next_token as nat) by {
                    assert(before.used(t) == total_out(
                        before.regions@,
                        t,
                        before.next_token as nat,
                    ));
                    lemma_total_changes(
                        before.regions@,
                        self.regions@,
                        t,
                        token,
                        self.next_token as nat,
                    );
                    assert(out_in(before.regions@, t, token) == 0);
                    assert(total_out(before.regions@, t, self.next_token as nat) == total_out(
                        before.regions@,
                        t,
                        before.next_token as nat,
                    ));
                }
            }
        }
        Block { ptr: base, len: request.len, tier, token }
    }

    /// Whether the knobs and the counts of copies are unchanged.
    pub open spec fn same_knobs(&self, before: &Self) -> bool {
        &&& self.limits == before.limits
        &&& self.page == before.page
        &&& self.is_pinned == before.is_pinned
        &&& self.failing == before.failing
        &&& self.payload == before.payload
        &&& self.boundary == before.boundary
    }

    /// Allocate `bytes` in `tier`, where `base` is what the heap gives when it is asked, none
    /// where it has nothing left.
    pub fn allocate(&mut self, bytes: usize, tier: Tier, base: Option<usize>) -> (r: Result<
        Block,
        MorunaError,
    >)
        requires
            old(self).wf(),
            known(tier),
            old(self).used(tier) + asked_len(bytes) <= u64::MAX,
            old(self).next_token < u64::MAX,
            base matches Some(b) ==> b + asked_len(bytes) <= usize::MAX && old(self).free_at(
                b,
                asked_len(bytes),
            ),
        ensures
            final(self).wf(),
            old(self).balanced() ==> final(self).balanced(),
            match (old(self).verdict(bytes, tier), base) {
                (Ok(q), Some(at)) => {
                    &&& r == Ok::<Block, MorunaError>(
                        Block {
                            ptr: at,
                            len: asked_len(bytes),
                            tier,
                            token: (old(self).next_token + 1) as u64,
                        },
                    )
                    &&& final(self).next_token == old(self).next_token + 1
                    &&& final(self).regions@ == old(self).regions@.insert(
                        (old(self).next_token + 1) as u64,
                        (Region {
                            base: at,
                            len: asked_len(bytes),
                            align: q.align,
                            tier,
                            outstanding: asked_len(bytes),
                        }),
                    )
                    &&& final(self).used(tier) == old(self).used(tier) + asked_len(bytes)
                    &&& forall|t: Tier|
                        t != tier && known(t) ==> #[trigger] final(self).used(t) == old(self).used(t)
                    &&& final(self).allocations as int == (old(self).allocations + 1)
                        % 0x1_0000_0000_0000_0000
                    &&& final(self).same_knobs(old(self))
                    &&& final(self).refused == old(self).refused
                },
                (Ok(q), None) => final(self).tried(old(self)) && r is Err && r->Err_0@ == (
                MorunaErrorView::Alloc { bytes: bytes as u64, tier, budget: 0, in_use: 0 }),
                (Err((budget, in_use)), _) => final(self).tried(old(self)) && r is Err
                    && r->Err_0@ == (MorunaErrorView::Alloc {
                    bytes: bytes as u64,
                    tier,
                    budget,
                    in_use,
                }),
            },
    {
        let request = self.request(bytes, tier)?;
        match base {
            None => Err(MorunaError::Alloc { bytes: bytes as u64, tier, budget: 0, in_use: 0 }),
            Some(at) => Ok(self.grant(request, tier, at)),
        }
    }

    /// What a release does.
    pub open spec fn release_of(&self, ptr: usize, len: usize, token: u64) -> Release {
        if len == 0 {
            Release::Nothing
        } else if token == NO_TOKEN {
            Release::Refused(Refusal::Untagged)
        } else if !self.regions@.dom().contains(token) {
            Release::Refused(Refusal::Gone)
        } else {
            let r = self.regions@[token];
            if ptr < r.base || ptr + len > r.base + r.len {
                Release::Refused(Refusal::Outside)
            } else if len > r.outstanding {
                Release::Refused(Refusal::TooMany)
            } else if len < r.outstanding {
                Release::Kept
            } else {
                Release::Freed(r)
            }
        }
    }

    /// The live regions after a release.
    pub open spec fn after_release(&self, len: usize, token: u64, what: Release) -> Map<
        u64,
        Region,
    > {
        match what {
            Release::Nothing | Release::Refused(_) => self.regions@,
            Release::Kept => self.regions@.insert(
                token,
                Region {
                    outstanding: (self.regions@[token].outstanding - len) as usize,
                    ..self.regions@[token]
                },
            ),
            Release::Freed(_) => self.regions@.remove(token),
        }
    }

    /// Return `len` bytes at `ptr` to the region `token` names. A region goes back to the heap
    /// when all its bytes have been released; a release that cannot be attributed is counted
    /// and changes nothing else.
    pub fn release_token(&mut self, ptr: usize, len: usize, tier: Tier, token: u64) -> (r: Release)
        requires
            old(self).wf(),
            match old(self).release_of(ptr, len, token) {
                Release::Nothing => true,
                Release::Refused(_) => old(self).refused < u64::MAX,
                Release::Kept | Release::Freed(_) => known(tier),
            },
        ensures
            final(self).wf(),
            r == old(self).release_of(ptr, len, token),
            final(self).regions@ == old(self).after_release(len, token, r),
            r is Nothing ==> *final(self) == *old(self),
            r is Refused ==> *final(self) == (FakeAllocator {
                refused: (old(self).refused + 1) as u64,
                ..*old(self)
            }),
            r is Kept || r is Freed ==> {
                &&& tier.resident() ==> final(self).used(tier) as int == if len <= old(self).used(
                    tier,
                ) {
                    old(self).used(tier) - len
                } else {
                    0
                }
                &&& forall|t: Tier|
                    t != tier && known(t) ==> #[trigger] final(self).used(t) == old(self).used(t)
                &&& final(self).refused == old(self).refused
                &&& final(self).next_token == old(self).next_token
                &&& final(self).allocations == old(self).allocations
                &&& final(self).same_knobs(old(self))
            },
            old(self).balanced() && (old(self).regions@.dom().contains(token)
                ==> old(self).regions@[token].tier == tier) ==> final(self).balanced(),
    {
        if len == 0 {
            return Release::Nothing;
        }
        let ghost before = *self;
        if token == NO_TOKEN {
            self.refused = self.refused + 1;
            return Release::Refused(Refusal::Untagged);
        }
        let region = match self.regions.get(token) {
            Some(r) => *r,
            None => {
                self.refused = self.refused + 1;
                    return Release::Refused(Refusal::Gone);
            },
        };
        if ptr < region.base || len > region.len || ptr - region.base > region.len - len {
            self.refused = self.refused + 1;
            return Release::Refused(Refusal::Outside);
        }
        if len > region.outstanding {
            self.refused = self.refused + 1;
            return Release::Refused(Refusal::TooMany);
        }
        if tier.is_resident() {
            let n = self.in_use(tier);
            self.set_use(tier, n.saturating_sub(len as u64));
        }
        let r = if len < region.outstanding {
            let mut less = region;
            less.outstanding = region.outstanding - len;
            self.regions.insert(token, less);
            Release::Kept
        } else {
            let _ = self.regions.remove(token);
            let _ = self.by_addr.remove(region.base as u64);
            proof {
                before.lemma_bases_differ(token);
            }
            Release::Freed(region)
        };
        proof {
            if before.balanced() && region.tier == tier {
                assert forall|t: Tier| t.resident() && known(t) implies #[trigger] self.used(t)
                    == total_out(self.regions@, t, self.next_token as nat) by {
                    assert(before.used(t) == total_out(
                        before.regions@,
                        t,
                        before.next_token as nat,
                    ));
                    lemma_total_changes(
                        before.regions@,
                        self.regions@,
                        t,
                        token,
                        self.next_token as nat,
                    );
                    lemma_total_covers(before.regions@, t, token, before.next_token as nat);
                }
            }
        }
        r
    }

    proof fn lemma_bases_differ(&self, token: u64)
        requires
            self.wf(),
            self.regions@.dom().contains(token),
        ensures
            forall|t: u64| #[trigger]
                self.regions@.dom().contains(t) && t != token ==> self.regions@[t].base
                    != self.regions@[token].base,
    {
        assert forall|t: u64| #[trigger]
            self.regions@.dom().contains(t) && t != token implies self.regions@[t].base
            != self.regions@[token].base by {
            assert(disjoint(self.regions@[t], self.regions@[token]));
        }
    }

    /// A release with no token: it is counted, and not attributed to whichever region covers
    /// the address now.
    pub fn release(&mut self, ptr: usize, len: usize, tier: Tier) -> (r: Release)
        requires
            old(self).wf(),
            len > 0 ==> old(self).refused < u64::MAX,
        ensures
            final(self).wf(),
            len == 0 ==> r == Release::Nothing && *final(self) == *old(self),
            len > 0 ==> r == Release::Refused(Refusal::Untagged) && *final(self) == (
            FakeAllocator { refused: (old(self).refused + 1) as u64, ..*old(self) }),
    {
        self.release_token(ptr, len, tier, NO_TOKEN)
    }

    /// Count payload bytes copied with the CPU.
    pub fn note_payload_copy(&mut self, bytes: u64)
        ensures
            *final(self) == (FakeAllocator { payload: final(self).payload, ..*old(self) }),
            final(self).payload as int == (old(self).payload + bytes) % 0x1_0000_0000_0000_0000,
    {
        self.payload = self.payload.wrapping_add(bytes);
    }

    /// Count bytes copied once at the boundary.
    pub fn note_boundary_copy(&mut self, bytes: u64)
        ensures
            *final(self) == (FakeAllocator { boundary: final(self).boundary, ..*old(self) }),
            final(self).boundary as int == (old(self).boundary + bytes) % 0x1_0000_0000_0000_0000,
    {
        self.boundary = self.boundary.wrapping_add(bytes);
    }

    /// Everything that is counted.
    pub fn stats(&self) -> (s: AllocStats)
        ensures
            s.host_in_use == self.host_in_use,
            s.pinned_in_use == self.pinned_in_use,
            s.device_in_use@ == self.device_in_use@,
            s.allocations_total == self.allocations,
            s.payload_copies_total == self.payload,
            s.boundary_copies_total == self.boundary,
    {
        let device_in_use = self.device_in_use.clone();
        assert(device_in_use@ =~= self.device_in_use@);
        AllocStats {
            host_in_use: self.host_in_use,
            pinned_in_use: self.pinned_in_use,
            device_in_use,
            allocations_total: self.allocations,
            payload_copies_total: self.payload,
            boundary_copies_total: self.boundary,
        }
    }

    /// The tier of the live region that an address lies in, if it lies in one.
    pub fn tier_of(&self, address: usize) -> (r: Option<Tier>)
        requires
            self.wf(),
        ensures
            match r {
                Some(t) => self.holds(address, t),
                None => forall|t: Tier| !#[trigger] self.holds(address, t),
            },
    {
        proof {
            self.by_addr.lemma_keys();
        }
        let n = if address == usize::MAX {
            self.by_addr.len()
        } else {
            self.by_addr.lower_bound(address as u64 + 1)
        };
        if n == 0 {
            assert forall|t: Tier| !#[trigger] self.holds(address, t) by {
                if self.holds(address, t) {
                    let k = choose|k: u64| #[trigger]
                        self.regions@.dom().contains(k) && self.regions@[k].base <= address
                            < self.regions@[k].base + self.regions@[k].len && self.regions@[k].tier
                            == t;
                    let b = self.regions@[k].base as u64;
                    assert(self.by_addr@.dom().contains(b));
                    let i = choose|i: int|
                        0 <= i < self.by_addr.keys().len() && #[trigger] self.by_addr.keys()[i] == b;
                }
            }
            return None;
        }
        let base = self.by_addr.key(n - 1);
        let token = *self.by_addr.value(n - 1);
        match self.regions.get(token) {
            Some(region) => {
                if (address - base as usize) < region.len {
                    assert(self.holds(address, region.tier));
                    Some(region.tier)
                } else {
                    assert forall|t: Tier| !#[trigger] self.holds(address, t) by {
                        if self.holds(address, t) {
                            let k = choose|k: u64| #[trigger]
                                self.regions@.dom().contains(k) && self.regions@[k].base <= address
                                    < self.regions@[k].base + self.regions@[k].len
                                    && self.regions@[k].tier == t;
                            let b = self.regions@[k].base as u64;
                            assert(self.by_addr@.dom().contains(b));
                            let i = choose|i: int|
                                0 <= i < self.by_addr.keys().len() && #[trigger] self.by_addr.keys()[i]
                                    == b;
                            assert(i < n);
                            if i < n - 1 {
                                assert(self.by_addr.keys()[i] < self.by_addr.keys()[n - 1]);
                            }
                            assert(disjoint(self.regions@[k], self.regions@[token]) || k == token);
                        }
                    }
                    None
                }
            },
            None => None,
        }
    }

    /// Whether an address lies in a live region.
    pub fn contains(&self, address: usize) -> (r: bool)
        requires
            self.wf(),
        ensures
            r == exists|t: Tier| #[trigger] self.holds(address, t),
    {
        self.tier_of(address).is_some()
    }
}

/// A region whose bytes are released in two parts, in either order, goes back to the heap with
/// the second part and not before.
pub proof fn law_a_region_survives_until_both_parts_are_released(
    first: FakeAllocator,
    second: FakeAllocator,
    token: u64,
    at: usize,
    head_first: bool,
)
    requires
        first.wf(),
        first.regions@.dom().contains(token),
        first.regions@[token].outstanding == first.regions@[token].len,
        0 < at < first.regions@[token].len,
        second.regions@ == first.after_release(
            if head_first {
                at
            } else {
                (first.regions@[token].len - at) as usize
            },
            token,
            Release::Kept,
        ),
    ensures
        ({
            let r = first.regions@[token];
            let tail = (r.base + at) as usize;
            let rest = (r.len - at) as usize;
            if head_first {
                &&& first.release_of(r.base, at, token) == Release::Kept
                &&& second.release_of(tail, rest, token) is Freed
            } else {
                &&& first.release_of(tail, rest, token) == Release::Kept
                &&& second.release_of(r.base, at, token) is Freed
            }
        }),
{
}

/// A release of bytes whose region has gone changes no region, whatever lies at the address
/// now.
pub proof fn law_a_stale_release_frees_nothing(s: FakeAllocator, ptr: usize, len: usize, token: u64)
    requires
        s.wf(),
        !s.regions@.dom().contains(token),
    ensures
        s.after_release(len, token, s.release_of(ptr, len, token)) == s.regions@,
        len > 0 ==> s.release_of(ptr, len, token) is Refused,
{
}

/// A token whose region has gone never names a region again: what is allocated later gets a
/// token above all that were given out.
pub proof fn law_tokens_are_not_reused(
    before: FakeAllocator,
    after: FakeAllocator,
    token: u64,
    region: Region,
)
    requires
        before.wf(),
        token <= before.next_token < u64::MAX,
        !before.regions@.dom().contains(token),
        after.regions@ == before.regions@.insert((before.next_token + 1) as u64, region),
        after.next_token == before.next_token + 1,
    ensures
        !after.regions@.dom().contains(token),
        token <= after.next_token,
{
}

} // verus!
