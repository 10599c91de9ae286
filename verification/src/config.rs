//! The monitor's configuration: what one guest is booted with.
//!
//! There is no network device in the monitor and no field for one here.

pub mod laws;

use crate::error::{Result, VmmError, VmmErrorView};
use crate::paths::{join, joined, parent, parent_of, same_components, same_path};
use crate::text::{cat2, cat3, cat5, dec, dec_text};
use vstd::prelude::*;
use vstd::string::*;

verus! {

/// One MiB.
pub const MIB: u64 = 1048576;

/// One GiB.
pub const GIB: u64 = 1073741824;

/// Smallest boot memory: the pinned guest kernel, the initramfs and the page cache CPython's
/// first import needs fit in it with room for a small run.
pub const MIN_MEMORY_BYTES: u64 = 268435456;

/// Memory sizes are multiples of this: the virtio-mem block size, so that the boot RAM end and
/// every hot-plugged block share one granularity.
pub const MEMORY_ALIGN_BYTES: u64 = 2097152;

/// Largest `--memory-max`: 1 TiB, far above any host this runs on, and small enough that the
/// guest-physical map of both architectures stays below 41 bits.
pub const MAX_MEMORY_BYTES: u64 = 1099511627776;

/// Most vCPUs a guest may have: the aarch64 GICv3 redistributor window is sized for 64, and
/// x86 xAPIC ids stay below 255 with room for the IOAPIC id.
pub const MAX_VCPUS: u32 = 64;

/// Most block devices a guest may have, the image's root filesystem included: on x86_64 the
/// block devices take GSIs 8 to 23.
pub const MAX_DISKS: usize = 16;

/// The host's vsock CID; a guest CID must be above it (vsock(7): 0, 1 and 2 are reserved).
pub const HOST_CID: u32 = 2;

/// `sun_path` is 108 bytes on Linux and 104 on macOS, both with the terminating NUL; the
/// shorter limit is enforced everywhere so a path that works here works on the host.
pub const MAX_SOCKET_PATH: usize = 103;

/// One block device the host names.
#[derive(Clone, Debug, PartialEq, Eq)]
pub struct DiskConfig {
    /// The backing file or block device.
    pub path: String,
    /// Read-only: the guest sees `VIRTIO_BLK_F_RO` and every write is refused.
    pub read_only: bool,
}

/// A [`DiskConfig`] with its path as a character sequence.
#[verifier::ext_equal]
pub struct DiskView {
    pub path: Seq<char>,
    pub read_only: bool,
}

impl View for DiskConfig {
    type V = DiskView;

    open spec fn view(&self) -> DiskView {
        DiskView { path: self.path@, read_only: self.read_only }
    }
}

/// The guest's vsock device and its host side.
#[derive(Clone, Debug, PartialEq, Eq)]
pub struct VsockConfig {
    /// The guest's context id (above [`HOST_CID`]).
    pub cid: u32,
    /// The host Unix socket: a host process connects here and writes `CONNECT <port>\n` to
    /// reach a guest port; a guest connecting to host port `P` reaches `<uds_path>_P`
    /// (Firecracker's convention).
    pub uds_path: String,
}

/// Everything one boot is given. No field describes a network device.
#[derive(Clone, Debug, PartialEq, Eq)]
pub struct VmConfig {
    /// The guest image: a directory or an OCI image layout.
    pub image: String,
    /// The block devices the host names, in the order the guest sees them after the image's
    /// root filesystem.
    pub disks: Vec<DiskConfig>,
    /// Memory at boot, bytes.
    pub memory_bytes: u64,
    /// The most memory `resize` may reach, bytes; the difference is the virtio-mem region.
    pub memory_max_bytes: u64,
    /// vCPUs online at boot.
    pub cpus: u32,
    /// The most vCPUs `resize` may reach.
    pub cpus_max: u32,
    /// The vsock device.
    pub vsock: VsockConfig,
    /// The monitor's own control socket.
    pub control_socket: String,
}

/// A [`VmConfig`] with its texts as character sequences.
#[verifier::ext_equal]
pub struct VmView {
    pub image: Seq<char>,
    pub disks: Seq<DiskView>,
    pub memory_bytes: u64,
    pub memory_max_bytes: u64,
    pub cpus: u32,
    pub cpus_max: u32,
    pub cid: u32,
    pub uds_path: Seq<char>,
    pub control_socket: Seq<char>,
}

/// The disks with their views.
pub open spec fn disk_views(d: Seq<DiskConfig>) -> Seq<DiskView> {
    Seq::new(d.len(), |i: int| d[i]@)
}

impl View for VmConfig {
    type V = VmView;

    open spec fn view(&self) -> VmView {
        VmView {
            image: self.image@,
            disks: disk_views(self.disks@),
            memory_bytes: self.memory_bytes,
            memory_max_bytes: self.memory_max_bytes,
            cpus: self.cpus,
            cpus_max: self.cpus_max,
            cid: self.vsock.cid,
            uds_path: self.vsock.uds_path@,
            control_socket: self.control_socket@,
        }
    }
}

/// What the host's file system says of a disk's path.
#[derive(Clone, Debug, PartialEq, Eq)]
pub enum DiskFact {
    /// It cannot be looked up, with the operating system's reason.
    Missing(String),
    /// It is a directory.
    Directory,
    /// It is something that can be opened.
    Usable,
}

/// What validation needs to know of the host's file system.
#[derive(Clone, Debug, PartialEq, Eq)]
pub struct HostFacts {
    /// One entry per disk, in order.
    pub disks: Vec<DiskFact>,
    /// The directory of the vsock socket exists.
    pub uds_dir_exists: bool,
    /// The directory of the control socket exists.
    pub control_dir_exists: bool,
}

/// A refusal: the flag that is wrong and why.
#[verifier::ext_equal]
pub struct Refusal {
    pub field: Seq<char>,
    pub msg: Seq<char>,
}

/// A refusal as an error.
pub open spec fn refusal_error(r: Refusal) -> VmmErrorView {
    VmmErrorView::Config { field: r.field, msg: r.msg }
}

/// How long the path of the socket `field` names may be: a port is appended to the vsock
/// socket's for guest-initiated connections.
pub open spec fn socket_limit(field: Seq<char>) -> int {
    if field == "--vsock-uds"@ {
        92
    } else {
        103
    }
}

/// The length of a text in bytes.
pub open spec fn byte_len(s: Seq<char>) -> nat {
    vstd::utf8::encode_utf8(s).len()
}

/// What is wrong with a memory size.
pub open spec fn align_refusal(field: Seq<char>, v: u64) -> Option<Refusal> {
    if v as int % (MEMORY_ALIGN_BYTES as int) != 0 {
        Some(Refusal { field, msg: dec(v as nat) + " is not a multiple of 2097152 (2 MiB)"@ })
    } else {
        None
    }
}

/// What is wrong with a socket path: empty, too long, or in a directory that does not exist.
pub open spec fn socket_refusal(field: Seq<char>, p: Seq<char>, dir_exists: bool) -> Option<
    Refusal,
> {
    if byte_len(p) == 0 || byte_len(p) > socket_limit(field) {
        Some(
            Refusal {
                field,
                msg: p + " is "@ + dec(byte_len(p)) + " bytes; a socket path is 1 to "@ + dec(
                    socket_limit(field) as nat,
                ),
            },
        )
    } else {
        match parent_of(p) {
            Some(dir) => if dir.len() > 0 && !dir_exists {
                Some(Refusal { field, msg: "directory "@ + dir + " does not exist"@ })
            } else {
                None
            },
            None => None,
        }
    }
}

/// What is wrong with one disk.
pub open spec fn disk_refusal(d: DiskView, fact: DiskFact) -> Option<Refusal> {
    match fact {
        DiskFact::Missing(why) => Some(
            Refusal { field: "--disk"@, msg: d.path + ": "@ + why@ },
        ),
        DiskFact::Directory => Some(
            Refusal { field: "--disk"@, msg: d.path + " is a directory"@ },
        ),
        DiskFact::Usable => None,
    }
}

/// What is wrong with the first disk that is wrong, from the `i`th on.
pub open spec fn disks_refusal(d: Seq<DiskView>, facts: Seq<DiskFact>, i: int) -> Option<Refusal>
    decreases d.len() - i,
{
    if i < 0 || i >= d.len() {
        None
    } else if disk_refusal(d[i], facts[i]) is Some {
        disk_refusal(d[i], facts[i])
    } else {
        disks_refusal(d, facts, i + 1)
    }
}

impl VmView {
    /// The rules on memory.
    pub open spec fn memory_ok(self) -> bool {
        &&& MIN_MEMORY_BYTES <= self.memory_bytes <= self.memory_max_bytes <= MAX_MEMORY_BYTES
        &&& self.memory_bytes as int % (MEMORY_ALIGN_BYTES as int) == 0
        &&& self.memory_max_bytes as int % (MEMORY_ALIGN_BYTES as int) == 0
    }

    /// The rules on vCPUs, the guest's context id and the number of disks.
    pub open spec fn counts_ok(self) -> bool {
        &&& 1 <= self.cpus <= self.cpus_max <= MAX_VCPUS
        &&& HOST_CID < self.cid < u32::MAX
        &&& self.disks.len() < MAX_DISKS
    }

    /// What a valid configuration is, given what the host's file system says.
    pub open spec fn valid(self, facts: HostFacts) -> bool {
        &&& self.memory_ok()
        &&& self.counts_ok()
        &&& forall|i: int| 0 <= i < self.disks.len() ==> (#[trigger] facts.disks@[i]) is Usable
        &&& socket_refusal("--vsock-uds"@, self.uds_path, facts.uds_dir_exists) is None
        &&& socket_refusal("--control"@, self.control_socket, facts.control_dir_exists) is None
        &&& !same_components(self.uds_path, self.control_socket)
    }

    /// The first rule a configuration breaks, in the order they are checked.
    pub open spec fn refusal(self, facts: HostFacts) -> Option<Refusal> {
        if self.memory_bytes < MIN_MEMORY_BYTES {
            Some(
                Refusal {
                    field: "--memory"@,
                    msg: dec(self.memory_bytes as nat)
                        + " bytes is below the minimum 268435456"@,
                },
            )
        } else if align_refusal("--memory"@, self.memory_bytes) is Some {
            align_refusal("--memory"@, self.memory_bytes)
        } else if align_refusal("--memory-max"@, self.memory_max_bytes) is Some {
            align_refusal("--memory-max"@, self.memory_max_bytes)
        } else if self.memory_max_bytes < self.memory_bytes {
            Some(
                Refusal {
                    field: "--memory-max"@,
                    msg: dec(self.memory_max_bytes as nat) + " is below --memory "@ + dec(
                        self.memory_bytes as nat,
                    ),
                },
            )
        } else if self.memory_max_bytes > MAX_MEMORY_BYTES {
            Some(
                Refusal {
                    field: "--memory-max"@,
                    msg: dec(self.memory_max_bytes as nat) + " is above the limit 1099511627776"@,
                },
            )
        } else if self.cpus == 0 {
            Some(Refusal { field: "--cpus"@, msg: "must be at least 1"@ })
        } else if self.cpus_max < self.cpus {
            Some(
                Refusal {
                    field: "--cpus-max"@,
                    msg: dec(self.cpus_max as nat) + " is below --cpus "@ + dec(self.cpus as nat),
                },
            )
        } else if self.cpus_max > MAX_VCPUS {
            Some(
                Refusal {
                    field: "--cpus-max"@,
                    msg: dec(self.cpus_max as nat) + " is above the limit 64"@,
                },
            )
        } else if self.cid <= HOST_CID || self.cid == u32::MAX {
            Some(
                Refusal {
                    field: "--vsock"@,
                    msg: "cid "@ + dec(self.cid as nat)
                        + " is reserved; a guest cid is 3 to 4294967294"@,
                },
            )
        } else if self.disks.len() >= MAX_DISKS {
            Some(
                Refusal {
                    field: "--disk"@,
                    msg: dec(self.disks.len())
                        + " disks; at most 15 besides the image's root filesystem"@,
                },
            )
        } else if disks_refusal(self.disks, facts.disks@, 0) is Some {
            disks_refusal(self.disks, facts.disks@, 0)
        } else if socket_refusal("--vsock-uds"@, self.uds_path, facts.uds_dir_exists) is Some {
            socket_refusal("--vsock-uds"@, self.uds_path, facts.uds_dir_exists)
        } else if socket_refusal("--control"@, self.control_socket, facts.control_dir_exists)
            is Some {
            socket_refusal("--control"@, self.control_socket, facts.control_dir_exists)
        } else if same_components(self.uds_path, self.control_socket) {
            Some(
                Refusal {
                    field: "--control"@,
                    msg: "the control socket and the vsock socket are the same path"@,
                },
            )
        } else {
            None
        }
    }
}

proof fn lemma_disks_refusal(d: Seq<DiskView>, facts: Seq<DiskFact>, i: int)
    requires
        0 <= i <= d.len(),
        facts.len() == d.len(),
    ensures
        disks_refusal(d, facts, i) is None <==> forall|j: int|
            i <= j < d.len() ==> (#[trigger] facts[j]) is Usable,
    decreases d.len() - i,
{
    if i < d.len() {
        lemma_disks_refusal(d, facts, i + 1);
    }
}

/// A configuration is refused exactly when it breaks a rule.
pub proof fn law_refusals_are_the_rules(c: VmView, facts: HostFacts)
    requires
        facts.disks@.len() == c.disks.len(),
    ensures
        c.refusal(facts) is None <==> c.valid(facts),
{
    lemma_disks_refusal(c.disks, facts.disks@, 0);
}

impl VmConfig {
    /// A configuration with the default socket paths for `cid` under the temporary directory
    /// `tmp`.
    pub fn with_defaults(
        image: String,
        disks: Vec<DiskConfig>,
        memory_bytes: u64,
        cpus: u32,
        cid: u32,
        tmp: &str,
    ) -> (c: Self)
        ensures
            c@ == (VmView {
                image: image@,
                disks: disk_views(disks@),
                memory_bytes,
                memory_max_bytes: memory_bytes,
                cpus,
                cpus_max: cpus,
                cid,
                uds_path: vsock_path(tmp@, cid),
                control_socket: control_path(tmp@, cid),
            }),
    {
        VmConfig {
            image,
            disks,
            memory_bytes,
            memory_max_bytes: memory_bytes,
            cpus,
            cpus_max: cpus,
            vsock: VsockConfig { cid, uds_path: default_vsock_path(tmp, cid) },
            control_socket: default_control_path(tmp, cid),
        }
    }

    /// Check every field; the error names the flag that is wrong.
    pub fn validate(&self, facts: &HostFacts) -> (r: Result<()>)
        requires
            facts.disks@.len() == self.disks@.len(),
        ensures
            r is Ok <==> self@.valid(*facts),
            match r {
                Ok(()) => self@.refusal(*facts) is None,
                Err(e) => self@.refusal(*facts) matches Some(why) && e@ == refusal_error(why),
            },
    {
        proof {
            law_refusals_are_the_rules(self@, *facts);
        }
        if self.memory_bytes < MIN_MEMORY_BYTES {
            let n = dec_text(self.memory_bytes);
            let msg = cat2(&n, " bytes is below the minimum 268435456");
            return Err(VmmError::config("--memory", &msg));
        }
        check_aligned("--memory", self.memory_bytes)?;
        check_aligned("--memory-max", self.memory_max_bytes)?;
        if self.memory_max_bytes < self.memory_bytes {
            let a = dec_text(self.memory_max_bytes);
            let b = dec_text(self.memory_bytes);
            let msg = cat3(&a, " is below --memory ", &b);
            return Err(VmmError::config("--memory-max", &msg));
        }
        if self.memory_max_bytes > MAX_MEMORY_BYTES {
            let a = dec_text(self.memory_max_bytes);
            let msg = cat2(&a, " is above the limit 1099511627776");
            return Err(VmmError::config("--memory-max", &msg));
        }
        if self.cpus == 0 {
            return Err(VmmError::config("--cpus", "must be at least 1"));
        }
        if self.cpus_max < self.cpus {
            let a = dec_text(self.cpus_max as u64);
            let b = dec_text(self.cpus as u64);
            let msg = cat3(&a, " is below --cpus ", &b);
            return Err(VmmError::config("--cpus-max", &msg));
        }
        if self.cpus_max > MAX_VCPUS {
            let a = dec_text(self.cpus_max as u64);
            let msg = cat2(&a, " is above the limit 64");
            return Err(VmmError::config("--cpus-max", &msg));
        }
        if self.vsock.cid <= HOST_CID || self.vsock.cid == u32::MAX {
            let a = dec_text(self.vsock.cid as u64);
            let msg = cat3("cid ", &a, " is reserved; a guest cid is 3 to 4294967294");
            return Err(VmmError::config("--vsock", &msg));
        }
        // The image's root filesystem takes one slot.
        if self.disks.len() >= MAX_DISKS {
            let a = dec_text(self.disks.len() as u64);
            let msg = cat2(&a, " disks; at most 15 besides the image's root filesystem");
            return Err(VmmError::config("--disk", &msg));
        }
        let mut i: usize = 0;
        while i < self.disks.len()
            invariant
                i <= self.disks@.len(),
                facts.disks@.len() == self.disks@.len(),
                disks_refusal(self@.disks, facts.disks@, 0) == disks_refusal(
                    self@.disks,
                    facts.disks@,
                    i as int,
                ),
                disks_refusal(self@.disks, facts.disks@, 0) is Some ==> self@.refusal(*facts)
                    == disks_refusal(self@.disks, facts.disks@, 0),
                self@.refusal(*facts) is None <==> self@.valid(*facts),
            decreases self.disks@.len() - i,
        {
            let path = &self.disks[i].path;
            assert(self@.disks[i as int] == self.disks@[i as int]@);
            match &facts.disks[i] {
                DiskFact::Missing(why) => {
                    let msg = cat3(path, ": ", why);
                    return Err(VmmError::config("--disk", &msg));
                },
                DiskFact::Directory => {
                    let msg = cat2(path, " is a directory");
                    return Err(VmmError::config("--disk", &msg));
                },
                DiskFact::Usable => {},
            }
            i += 1;
        }
        check_socket_path("--vsock-uds", &self.vsock.uds_path, facts.uds_dir_exists)?;
        check_socket_path("--control", &self.control_socket, facts.control_dir_exists)?;
        if same_path(&self.vsock.uds_path, &self.control_socket) {
            return Err(
                VmmError::config(
                    "--control",
                    "the control socket and the vsock socket are the same path",
                ),
            );
        }
        Ok(())
    }

    /// Bytes the virtio-mem device may plug beyond boot memory.
    pub fn hotplug_bytes(&self) -> (n: u64)
        requires
            self@.memory_bytes <= self@.memory_max_bytes,
        ensures
            n == self@.memory_max_bytes - self@.memory_bytes,
    {
        self.memory_max_bytes - self.memory_bytes
    }
}

fn check_aligned(field: &'static str, v: u64) -> (r: Result<()>)
    ensures
        match r {
            Ok(()) => align_refusal(field@, v) is None,
            Err(e) => align_refusal(field@, v) matches Some(why) && e@ == refusal_error(why),
        },
{
    if v % MEMORY_ALIGN_BYTES != 0 {
        let n = dec_text(v);
        let msg = cat2(&n, " is not a multiple of 2097152 (2 MiB)");
        return Err(VmmError::config(field, &msg));
    }
    Ok(())
}

fn check_socket_path(field: &'static str, p: &str, dir_exists: bool) -> (r: Result<()>)
    ensures
        match r {
            Ok(()) => socket_refusal(field@, p@, dir_exists) is None,
            Err(e) => socket_refusal(field@, p@, dir_exists) matches Some(why) && e@
                == refusal_error(why),
        },
{
    let bytes = p.as_bytes();
    let len = bytes.len();
    assert(len == byte_len(p@));
    // `_<port>` is appended for guest-initiated vsock connections: leave room for 11 bytes.
    let limit: usize = if crate::text::same(field, "--vsock-uds") {
        MAX_SOCKET_PATH - 11
    } else {
        MAX_SOCKET_PATH
    };
    if len == 0 || len > limit {
        let n = dec_text(len as u64);
        let l = dec_text(limit as u64);
        let msg = cat5(p, " is ", &n, " bytes; a socket path is 1 to ", &l);
        return Err(VmmError::config(field, &msg));
    }
    match parent(p) {
        Some(dir) => {
            if dir.as_str().unicode_len() > 0 && !dir_exists {
                let msg = cat3("directory ", &dir, " does not exist");
                return Err(VmmError::config(field, &msg));
            }
            Ok(())
        },
        None => Ok(()),
    }
}

/// The default vsock socket for `cid`.
pub open spec fn vsock_path(tmp: Seq<char>, cid: u32) -> Seq<char> {
    joined(tmp, "moruna-vmm-"@ + dec(cid as nat) + ".vsock"@)
}

/// The default control socket for `cid`.
pub open spec fn control_path(tmp: Seq<char>, cid: u32) -> Seq<char> {
    joined(tmp, "moruna-vmm-"@ + dec(cid as nat) + ".ctl"@)
}

/// The default vsock socket for `cid`: `<tmp>/moruna-vmm-<cid>.vsock`.
pub fn default_vsock_path(tmp: &str, cid: u32) -> (s: String)
    ensures
        s@ == vsock_path(tmp@, cid),
{
    let n = dec_text(cid as u64);
    let name = cat3("moruna-vmm-", &n, ".vsock");
    join(tmp, &name)
}

/// The default control socket for `cid`: `<tmp>/moruna-vmm-<cid>.ctl`.
pub fn default_control_path(tmp: &str, cid: u32) -> (s: String)
    ensures
        s@ == control_path(tmp@, cid),
{
    let n = dec_text(cid as u64);
    let name = cat3("moruna-vmm-", &n, ".ctl");
    join(tmp, &name)
}

} // verus!
