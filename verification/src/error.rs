//! The monitor's error type and its exit codes.
//!
//! Every failure the monitor can meet is one variant here, and every variant maps to exactly
//! one process exit code, so a host can tell "you configured me wrong" from "the guest broke"
//! from "the hypervisor failed under me" without parsing text.

pub mod laws;

use crate::text::{cat2, cat4, cat5, dec, dec_text};
use vstd::prelude::*;

verus! {

/// The guest reported a code and it is relayed as is.
pub const EXIT_OK: i32 = 0;

/// Bad configuration, an unusable image, or no usable `/dev/kvm`.
pub const EXIT_CONFIG: i32 = 2;

/// The guest kernel panicked; the serial log is written to stderr.
pub const EXIT_GUEST_PANIC: i32 = 6;

/// The guest stopped without reporting an exit code on the status port.
pub const EXIT_NO_CODE: i32 = 7;

/// The monitor or the hypervisor failed while the guest ran.
pub const EXIT_MONITOR: i32 = 8;

/// An operating-system error, carried through unread.
#[verifier::external_type_specification]
#[verifier::external_body]
pub struct ExIoError(std::io::Error);

/// What `std::io::Error` prints. The text is the operating system's, so nothing is claimed of
/// it.
#[verifier::external_body]
fn io_error_text(e: &std::io::Error) -> String {
    e.to_string()
}

/// Every error the monitor returns.
#[derive(Clone, Debug)]
pub enum VmmError {
    /// A configuration value is invalid; `field` is the CLI flag or config field.
    Config {
        /// The flag or field.
        field: &'static str,
        /// What is wrong with it.
        msg: String,
    },
    /// `/dev/kvm` is absent, not permitted, or too old for what the monitor needs.
    NoKvm(String),
    /// The guest image could not be resolved or failed verification.
    Image {
        /// The image path, or the blob inside it.
        path: String,
        /// What is wrong with it.
        msg: String,
    },
    /// An IO operation failed while the guest ran.
    Io {
        /// The operation.
        op: &'static str,
        /// The path or socket.
        target: String,
        /// What went wrong.
        msg: String,
    },
    /// A hypervisor call failed.
    Hypervisor {
        /// The ioctl or step.
        op: &'static str,
        /// What went wrong.
        msg: String,
    },
    /// Guest memory was accessed out of range or a device saw a malformed request that it
    /// cannot answer with a status (the device is then marked broken).
    Device {
        /// The device name.
        device: &'static str,
        /// What went wrong.
        msg: String,
    },
    /// A control-socket request was refused; the text is sent back to the client.
    Control(String),
    /// The requested feature is not available on this architecture or host.
    Unsupported(String),
}

/// The monitor's result type.
pub type Result<T> = std::result::Result<T, VmmError>;

/// A [`VmmError`] with its texts as character sequences.
#[verifier::ext_equal]
pub enum VmmErrorView {
    Config { field: Seq<char>, msg: Seq<char> },
    NoKvm(Seq<char>),
    Image { path: Seq<char>, msg: Seq<char> },
    Io { op: Seq<char>, target: Seq<char>, msg: Seq<char> },
    Hypervisor { op: Seq<char>, msg: Seq<char> },
    Device { device: Seq<char>, msg: Seq<char> },
    Control(Seq<char>),
    Unsupported(Seq<char>),
}

impl View for VmmError {
    type V = VmmErrorView;

    open spec fn view(&self) -> VmmErrorView {
        match *self {
            VmmError::Config { field, msg } => VmmErrorView::Config { field: field@, msg: msg@ },
            VmmError::NoKvm(m) => VmmErrorView::NoKvm(m@),
            VmmError::Image { path, msg } => VmmErrorView::Image { path: path@, msg: msg@ },
            VmmError::Io { op, target, msg } => VmmErrorView::Io {
                op: op@,
                target: target@,
                msg: msg@,
            },
            VmmError::Hypervisor { op, msg } => VmmErrorView::Hypervisor { op: op@, msg: msg@ },
            VmmError::Device { device, msg } => VmmErrorView::Device {
                device: device@,
                msg: msg@,
            },
            VmmError::Control(m) => VmmErrorView::Control(m@),
            VmmError::Unsupported(m) => VmmErrorView::Unsupported(m@),
        }
    }
}

impl VmmErrorView {
    /// The process exit code of an error: 2 for what the user can correct before a boot, 8 for
    /// what failed under a running guest.
    pub open spec fn exit_code(self) -> int {
        match self {
            VmmErrorView::Config { .. } => 2,
            VmmErrorView::NoKvm(_) => 2,
            VmmErrorView::Image { .. } => 2,
            VmmErrorView::Unsupported(_) => 2,
            VmmErrorView::Io { .. } => 8,
            VmmErrorView::Hypervisor { .. } => 8,
            VmmErrorView::Device { .. } => 8,
            VmmErrorView::Control(_) => 8,
        }
    }

    /// The text of an error.
    pub open spec fn text(self) -> Seq<char> {
        match self {
            VmmErrorView::Config { field, msg } => "config "@ + field + ": "@ + msg,
            VmmErrorView::NoKvm(m) => "/dev/kvm: "@ + m,
            VmmErrorView::Image { path, msg } => "image "@ + path + ": "@ + msg,
            VmmErrorView::Io { op, target, msg } => "io "@ + op + " "@ + target + (": "@ + msg),
            VmmErrorView::Hypervisor { op, msg } => "kvm "@ + op + ": "@ + msg,
            VmmErrorView::Device { device, msg } => "device "@ + device + ": "@ + msg,
            VmmErrorView::Control(m) => "control: "@ + m,
            VmmErrorView::Unsupported(m) => "unsupported: "@ + m,
        }
    }

    /// The shared error a [`VmmError`] becomes for a caller outside the monitor.
    pub open spec fn shared(self) -> MorunaErrorView {
        match self {
            VmmErrorView::Config { field, msg } => MorunaErrorView::Config { name: field, msg },
            VmmErrorView::Io { op, target, msg } => MorunaErrorView::Io { op, target, msg },
            VmmErrorView::Unsupported(what) => MorunaErrorView::Config {
                name: "vm"@,
                msg: "unsupported: "@ + what,
            },
            other => MorunaErrorView::Io {
                op: "vm"@,
                target: "moruna-vmm"@,
                msg: other.text(),
            },
        }
    }
}

impl VmmError {
    /// The process exit code this error ends `moruna-vmm` with.
    pub fn exit_code(&self) -> (code: i32)
        ensures
            code == self@.exit_code(),
    {
        match self {
            VmmError::Config { .. } => EXIT_CONFIG,
            VmmError::NoKvm(_) => EXIT_CONFIG,
            VmmError::Image { .. } => EXIT_CONFIG,
            VmmError::Unsupported(_) => EXIT_CONFIG,
            VmmError::Io { .. } => EXIT_MONITOR,
            VmmError::Hypervisor { .. } => EXIT_MONITOR,
            VmmError::Device { .. } => EXIT_MONITOR,
            VmmError::Control(_) => EXIT_MONITOR,
        }
    }

    /// The text of this error.
    pub fn to_string(&self) -> (s: String)
        ensures
            s@ == self@.text(),
    {
        match self {
            VmmError::Config { field, msg } => cat4("config ", field, ": ", msg),
            VmmError::NoKvm(m) => cat2("/dev/kvm: ", m),
            VmmError::Image { path, msg } => cat4("image ", path, ": ", msg),
            VmmError::Io { op, target, msg } => {
                let tail = cat2(": ", msg);
                cat5("io ", op, " ", target, &tail)
            },
            VmmError::Hypervisor { op, msg } => cat4("kvm ", op, ": ", msg),
            VmmError::Device { device, msg } => cat4("device ", device, ": ", msg),
            VmmError::Control(m) => cat2("control: ", m),
            VmmError::Unsupported(m) => cat2("unsupported: ", m),
        }
    }

    /// Shorthand for a configuration error.
    pub fn config(field: &'static str, msg: &str) -> (e: Self)
        ensures
            e@ == (VmmErrorView::Config { field: field@, msg: msg@ }),
    {
        VmmError::Config { field, msg: msg.to_owned() }
    }

    /// Shorthand for an IO error whose text is known.
    pub fn io_text(op: &'static str, target: &str, msg: &str) -> (e: Self)
        ensures
            e@ == (VmmErrorView::Io { op: op@, target: target@, msg: msg@ }),
    {
        VmmError::Io { op, target: target.to_owned(), msg: msg.to_owned() }
    }

    /// Shorthand for an IO error from a `std::io::Error`, whose own text becomes `msg`.
    pub fn io(op: &'static str, target: &str, e: &std::io::Error) -> (r: Self)
        ensures
            r@ matches VmmErrorView::Io { op: o, target: t, .. } && o == op@ && t == target@,
    {
        let msg = io_error_text(e);
        VmmError::io_text(op, target, &msg)
    }

    /// Shorthand for a device error.
    pub fn device(device: &'static str, msg: &str) -> (e: Self)
        ensures
            e@ == (VmmErrorView::Device { device: device@, msg: msg@ }),
    {
        VmmError::Device { device, msg: msg.to_owned() }
    }

    /// The shared error type a caller outside the monitor sees.
    pub fn into_shared(self) -> (m: MorunaError)
        ensures
            m@ == self@.shared(),
    {
        match self {
            VmmError::Config { field, msg } => MorunaError::Config { name: field, msg },
            VmmError::Io { op, target, msg } => MorunaError::Io { op, target, msg },
            VmmError::Unsupported(what) => MorunaError::Config {
                name: "vm",
                msg: cat2("unsupported: ", &what),
            },
            other => MorunaError::Io {
                op: "vm",
                target: "moruna-vmm".to_owned(),
                msg: other.to_string(),
            },
        }
    }
}

/// Bytes staged on disk.
#[derive(Clone, Copy, Debug, PartialEq, Eq, Structural)]
pub struct SegmentRef {
    /// The segment file's number.
    pub segment: u32,
    /// Where in the segment the bytes begin.
    pub offset: u64,
    /// How many bytes there are.
    pub len: u64,
}

/// Where bytes are.
#[derive(Clone, Copy, Debug, PartialEq, Eq, Structural)]
pub enum Tier {
    /// Host memory.
    Host,
    /// Host memory that is page-locked.
    PinnedHost,
    /// The memory of a device.
    Device(u8),
    /// A segment on disk.
    Disk(SegmentRef),
    /// Another host, and a number there.
    Remote(u32, u64),
}

/// The most devices a run has.
pub const MAX_DEVICES: usize = 8;

impl Tier {
    /// Whether bytes in the tier can be addressed.
    pub open spec fn resident(self) -> bool {
        self is Host || self is PinnedHost || self is Device
    }

    /// Whether bytes in the tier can be addressed.
    pub fn is_resident(&self) -> (r: bool)
        ensures
            r == self.resident(),
    {
        match self {
            Tier::Host | Tier::PinnedHost | Tier::Device(_) => true,
            Tier::Disk(_) | Tier::Remote(_, _) => false,
        }
    }
}


/// The error type shared by the sources, the test kit and the monitor.
#[derive(Clone, Debug)]
pub enum MorunaError {
    /// A configuration value is invalid.
    Config {
        /// The field.
        name: &'static str,
        /// What is wrong with it.
        msg: String,
    },
    /// An IO operation failed.
    Io {
        /// The operation.
        op: &'static str,
        /// The file or socket.
        target: String,
        /// What went wrong.
        msg: String,
    },
    /// An allocation was refused.
    Alloc {
        /// The bytes asked for.
        bytes: u64,
        /// The tier asked of.
        tier: Tier,
        /// The tier's budget, or 0 when the refusal has another cause.
        budget: u64,
        /// The bytes in use in the tier.
        in_use: u64,
    },
    /// A source could not be planned.
    Plan(String),
    /// A read of a split failed.
    Source {
        /// The split.
        split: u64,
        /// What went wrong.
        msg: String,
    },
    /// A sink refused a batch.
    Sink(String),
    /// A sink could not resume.
    Resume(String),
}

/// A [`MorunaError`] with its texts as character sequences.
#[verifier::ext_equal]
pub enum MorunaErrorView {
    Config { name: Seq<char>, msg: Seq<char> },
    Io { op: Seq<char>, target: Seq<char>, msg: Seq<char> },
    Alloc { bytes: u64, tier: Tier, budget: u64, in_use: u64 },
    Plan(Seq<char>),
    Source { split: u64, msg: Seq<char> },
    Sink(Seq<char>),
    Resume(Seq<char>),
}

impl View for MorunaError {
    type V = MorunaErrorView;

    open spec fn view(&self) -> MorunaErrorView {
        match *self {
            MorunaError::Config { name, msg } => MorunaErrorView::Config {
                name: name@,
                msg: msg@,
            },
            MorunaError::Io { op, target, msg } => MorunaErrorView::Io {
                op: op@,
                target: target@,
                msg: msg@,
            },
            MorunaError::Alloc { bytes, tier, budget, in_use } => MorunaErrorView::Alloc {
                bytes,
                tier,
                budget,
                in_use,
            },
            MorunaError::Plan(m) => MorunaErrorView::Plan(m@),
            MorunaError::Source { split, msg } => MorunaErrorView::Source { split, msg: msg@ },
            MorunaError::Sink(m) => MorunaErrorView::Sink(m@),
            MorunaError::Resume(m) => MorunaErrorView::Resume(m@),
        }
    }
}

impl MorunaErrorView {
    /// The text of an error.
    pub open spec fn text(self) -> Seq<char> {
        match self {
            MorunaErrorView::Config { name, msg } => "config "@ + name + ": "@ + msg,
            MorunaErrorView::Io { op, target, msg } => "io "@ + op + " "@ + target + (": "@ + msg),
            MorunaErrorView::Alloc { bytes, budget, in_use, .. } => "alloc "@ + dec(
                bytes as nat,
            ) + " bytes: budget "@ + dec(budget as nat) + (", in use "@ + dec(in_use as nat)),
            MorunaErrorView::Plan(m) => "plan: "@ + m,
            MorunaErrorView::Source { split, msg } => "source split "@ + dec(split as nat) + ": "@
                + msg,
            MorunaErrorView::Sink(m) => "sink: "@ + m,
            MorunaErrorView::Resume(m) => "resume: "@ + m,
        }
    }
}

impl MorunaError {
    /// The text of this error.
    pub fn to_string(&self) -> (s: String)
        ensures
            s@ == self@.text(),
    {
        match self {
            MorunaError::Config { name, msg } => cat4("config ", name, ": ", msg),
            MorunaError::Io { op, target, msg } => {
                let tail = cat2(": ", msg);
                cat5("io ", op, " ", target, &tail)
            },
            MorunaError::Alloc { bytes, budget, in_use, .. } => {
                let b = dec_text(*bytes);
                let limit = dec_text(*budget);
                let used = dec_text(*in_use);
                let tail = cat2(", in use ", &used);
                cat5("alloc ", &b, " bytes: budget ", &limit, &tail)
            },
            MorunaError::Plan(m) => cat2("plan: ", m),
            MorunaError::Source { split, msg } => {
                let n = dec_text(*split);
                cat4("source split ", &n, ": ", msg)
            },
            MorunaError::Sink(m) => cat2("sink: ", m),
            MorunaError::Resume(m) => cat2("resume: ", m),
        }
    }

    /// Shorthand for an IO error.
    pub fn io(op: &'static str, target: &str, msg: &str) -> (e: Self)
        ensures
            e@ == (MorunaErrorView::Io { op: op@, target: target@, msg: msg@ }),
    {
        MorunaError::Io { op, target: target.to_owned(), msg: msg.to_owned() }
    }
}

/// Every error ends the process with one of two codes, and neither is the code of a guest that
/// panicked, of a guest that reported nothing, or of success.
pub proof fn law_exit_codes_are_disjoint(e: VmmErrorView)
    ensures
        e.exit_code() == EXIT_CONFIG || e.exit_code() == EXIT_MONITOR,
        e.exit_code() != EXIT_OK,
        e.exit_code() != EXIT_GUEST_PANIC,
        e.exit_code() != EXIT_NO_CODE,
        EXIT_CONFIG != EXIT_MONITOR,
{
}

} // verus!
