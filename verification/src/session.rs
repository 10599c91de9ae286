//! Booting a guest, handing Moruna one spec over vsock and relaying what it says: the
//! configuration of such a run, the one message it sends, and how it ends. This is the seam
//! `moruna run --vm` calls.
//!
//! The message is `{"type":"spec","spec":<the spec file's JSON>}` and a newline; every line
//! Moruna sends back is relayed untouched.

use crate::config::{DiskConfig, VmConfig, VmView};
use crate::devices::vsock::laws::law_a_connect_line_names_its_port;
use crate::devices::vsock::muxer::{connect_port, ok_line};
use crate::error::{Result, VmmError, VmmErrorView};
use crate::text::{begins, cat3, chars_of, dec, dec_text, occurs};
use vstd::prelude::*;
use vstd::utf8::*;

verus! {

/// How long to keep trying to reach Moruna in a booting guest, in milliseconds.
pub const CONNECT_TIMEOUT_MS: u64 = 60_000;

/// Pause between connection attempts while the guest boots, in milliseconds.
pub const CONNECT_RETRY_MS: u64 = 20;

/// The resources the guest is booted with.
#[derive(Clone, Copy, Debug, PartialEq, Eq, Structural)]
pub struct Budget {
    /// Memory at boot, bytes.
    pub memory_bytes: u64,
    /// The most memory the host may grow the guest to, bytes.
    pub memory_max_bytes: u64,
    /// vCPUs at boot.
    pub cpus: u32,
    /// The most vCPUs the host may grow the guest to.
    pub cpus_max: u32,
}

/// How a VM run ended.
#[derive(Clone, Copy, Debug, PartialEq, Eq, Structural)]
pub struct ExitStatus {
    /// The monitor's exit code: Moruna's own code when it reported one, else 2, 6, 7 or 8 as
    /// [`crate::error`] defines them.
    pub code: i32,
    /// Lines Moruna sent over the host protocol, in order.
    pub messages: usize,
}

impl ExitStatus {
    /// How a run ended: the monitor's code, and the lines relayed, none where relaying failed.
    pub fn new(code: i32, relayed: Option<usize>) -> (s: Self)
        ensures
            s.code == code,
            s.messages == (match relayed {
                Some(n) => n,
                None => 0,
            }),
    {
        ExitStatus {
            code,
            messages: match relayed {
                Some(n) => n,
                None => 0,
            },
        }
    }

    /// True when Moruna completed its run.
    pub fn success(&self) -> (r: bool)
        ensures
            r == (self.code == 0),
    {
        self.code == 0
    }
}

/// Why a text is not JSON.
#[verifier::external_type_specification]
#[verifier::external_body]
pub struct ExJsonError(serde_json::Error);

/// The one-line form of a JSON text, if it is one.
pub uninterp spec fn json_line(b: Seq<u8>) -> Option<Seq<char>>;

/// `serde_json::from_slice` into a `serde_json::Value`, printed: the same document on one line,
/// or an error where the bytes are not JSON.
#[verifier::external_body]
fn json_of(b: &Vec<u8>) -> (r: std::result::Result<String, serde_json::Error>)
    ensures
        r is Ok <==> json_line(b@) is Some,
        r is Ok ==> r->Ok_0@ == json_line(b@)->Some_0,
{
    serde_json::from_slice::<serde_json::Value>(b).map(|v| v.to_string())
}

/// What `serde_json::Error` prints. Nothing is claimed of the text.
#[verifier::external_body]
fn json_error_text(e: &serde_json::Error) -> String {
    e.to_string()
}

/// The spec in the bytes of the file at `path`, on one line.
pub fn read_spec(path: &str, bytes: &Vec<u8>) -> (r: Result<String>)
    ensures
        r is Ok <==> json_line(bytes@) is Some,
        r matches Ok(s) ==> s@ == json_line(bytes@)->Some_0,
        r matches Err(e) ==> e@ matches VmmErrorView::Config { field, msg } && field == "spec"@
            && begins(msg, path@ + " is not JSON: "@),
{
    match json_of(bytes) {
        Ok(s) => Ok(s),
        Err(e) => {
            let why = json_error_text(&e);
            let msg = cat3(path, " is not JSON: ", &why);
            assert(msg@.subrange(0, (path@ + " is not JSON: "@).len() as int) =~= path@
                + " is not JSON: "@);
            Err(VmmError::config("spec", &msg))
        },
    }
}

/// The refusal of a spec file that cannot be read.
pub fn unreadable_spec(path: &str, why: &str) -> (e: VmmError)
    ensures
        e@ == (VmmErrorView::Config { field: "spec"@, msg: path@ + ": "@ + why@ }),
{
    let msg = cat3(path, ": ", why);
    VmmError::config("spec", &msg)
}

/// The `spec` message around a spec's JSON.
pub open spec fn spec_line(spec: Seq<char>) -> Seq<char> {
    "{\"spec\":"@ + spec + ",\"type\":\"spec\"}\n"@
}

/// The `spec` message for a spec's JSON on one line.
pub fn spec_message(spec: &str) -> (r: Vec<u8>)
    ensures
        r@ == encode_utf8(spec_line(spec@)),
{
    let line = cat3("{\"spec\":", spec, ",\"type\":\"spec\"}\n");
    let mut r: Vec<u8> = Vec::new();
    r.extend_from_slice(line.as_str().as_bytes());
    assert(r@ =~= encode_utf8(spec_line(spec@)));
    r
}

/// The line that asks the vsock device's host socket for guest port `port`.
pub fn connect_line(port: u32) -> (s: String)
    ensures
        s@ == "CONNECT "@ + dec(port as nat) + "\n"@,
        s@.len() > 0 && s@.last() == '\n' && connect_port(s@.drop_last()) == Some(port as nat),
{
    proof {
        reveal_strlit("CONNECT ");
        reveal_strlit("\n");
        let word = seq!['C', 'O', 'N', 'N', 'E', 'C', 'T', ' '];
        assert("CONNECT "@ =~= word);
        assert(("CONNECT "@ + dec(port as nat) + "\n"@).drop_last() =~= word + dec(port as nat));
        law_a_connect_line_names_its_port(port);
    }
    let p = dec_text(port as u64);
    cat3("CONNECT ", &p, "\n")
}

/// Whether the reply says that the guest is listening.
pub fn connected(line: &str) -> (r: bool)
    ensures
        r == begins(line@, "OK "@),
        (exists|p: u32| encode_utf8(line@) == #[trigger] ok_line(p)) ==> r,
{
    proof {
        if exists|p: u32| encode_utf8(line@) == #[trigger] ok_line(p) {
            let p = choose|p: u32| encode_utf8(line@) == #[trigger] ok_line(p);
            let text = "OK "@ + dec(p as nat) + "\n"@;
            encode_utf8_decode_utf8(line@);
            encode_utf8_decode_utf8(text);
            assert(line@ == text);
            assert(text.subrange(0, "OK "@.len() as int) =~= "OK "@);
        }
    }
    let v = chars_of(line);
    let p = chars_of("OK ");
    v.len() >= p.len() && occurs(&v, 0, &p)
}

/// What to do after an attempt to reach the guest failed: give up once the deadline has passed
/// or the VM has gone, else try again.
pub fn give_up(uds: &str, port: u32, past_deadline: bool, alive: bool) -> (r: Option<VmmError>)
    ensures
        r is Some <==> past_deadline || !alive,
        r matches Some(e) ==> e@ == (VmmErrorView::Io {
            op: "connect"@,
            target: uds@ + " port "@ + dec(port as nat),
            msg: "Moruna did not start listening in the guest"@,
        }),
{
    if past_deadline || !alive {
        let p = dec_text(port as u64);
        let target = cat3(uds, " port ", &p);
        Some(
            VmmError::io_text("connect", &target, "Moruna did not start listening in the guest"),
        )
    } else {
        None
    }
}

/// A guest CID for a process: 3 plus the process id, which is unique on the host while the
/// process lives.
pub fn default_cid(pid: u32) -> (cid: u32)
    requires
        pid <= u32::MAX - 3,
    ensures
        cid == 3 + pid,
        cid > 2,
{
    3 + pid
}

/// The configuration of a run in a VM.
pub fn run_config(
    image: String,
    disks: Vec<DiskConfig>,
    budget: Budget,
    cid: u32,
    tmp: &str,
) -> (c: VmConfig)
    ensures
        c@ == (VmView {
            image: image@,
            disks: crate::config::disk_views(disks@),
            memory_bytes: budget.memory_bytes,
            memory_max_bytes: budget.memory_max_bytes,
            cpus: budget.cpus,
            cpus_max: budget.cpus_max,
            cid,
            uds_path: crate::config::vsock_path(tmp@, cid),
            control_socket: crate::config::control_path(tmp@, cid),
        }),
{
    let mut c = VmConfig::with_defaults(
        image,
        disks,
        budget.memory_bytes,
        budget.cpus,
        cid,
        tmp,
    );
    c.memory_max_bytes = budget.memory_max_bytes;
    c.cpus_max = budget.cpus_max;
    c
}

/// A spec that has no line ends of its own is handed over on one line, as it is.
pub proof fn law_a_spec_is_one_line(spec: Seq<char>)
    requires
        forall|i: int| 0 <= i < spec.len() ==> #[trigger] spec[i] != '\n',
    ensures
        spec_line(spec).subrange(8, 8 + spec.len() as int) == spec,
        spec_line(spec).last() == '\n',
        forall|i: int| 0 <= i < spec_line(spec).len() - 1 ==> #[trigger] spec_line(spec)[i] != '\n',
{
    reveal_strlit("{\"spec\":");
    reveal_strlit(",\"type\":\"spec\"}\n");
    let line = spec_line(spec);
    assert(line.subrange(8, 8 + spec.len() as int) =~= spec);
    let head = "{\"spec\":"@;
    let end = ",\"type\":\"spec\"}\n"@;
    assert(head.len() == 8 && end.len() == 16);
    assert forall|i: int| 0 <= i < line.len() - 1 implies #[trigger] line[i] != '\n' by {
        if i < 8 {
            assert(line[i] == head[i]);
        } else if i < 8 + spec.len() {
            assert(line[i] == spec[i - 8]);
        } else {
            assert(line[i] == end[i - 8 - spec.len()]);
        }
    }
}

} // verus!
