//! The monitor's control requests: newline-delimited JSON over a Unix socket, one request per
//! line, one response per request.
//!
//! What a peer here can do is bounded by what boot fixed: resize within `--memory-max` and
//! `--cpus-max`, read the status, stop the guest. There is no request that adds a device, and
//! none that reads or writes guest memory or vsock traffic.

use crate::error::{Result, VmmError, VmmErrorView};
use crate::text::cat2;
use vstd::prelude::*;

verus! {

/// Longest request line accepted; a longer one is refused and the connection closed.
pub const LINE_MAX: usize = 4096;

/// A request.
#[derive(Clone, Copy, Debug, PartialEq, Eq, Structural)]
pub enum Request {
    /// Set the guest's total memory to `bytes` (boot memory plus hot-plugged).
    ResizeMemory {
        /// The new total, bytes.
        bytes: u64,
    },
    /// Set the number of vCPUs to `cpus` (hot-add only).
    ResizeCpus {
        /// The new count.
        cpus: u32,
    },
    /// Report the current state.
    Status,
    /// Stop the guest now; `boot` returns 7.
    Stop,
}

/// What the monitor reports about the guest.
#[derive(Clone, Copy, Debug, PartialEq, Eq, Structural)]
pub struct Status {
    /// Boot memory plus the memory the host asked the guest to hold.
    pub memory_bytes: u64,
    /// Boot memory plus what the guest has actually plugged.
    pub memory_plugged_bytes: u64,
    /// The boot maximum.
    pub memory_max_bytes: u64,
    /// vCPUs the host asked for.
    pub cpus: u32,
    /// The boot maximum.
    pub cpus_max: u32,
    /// True once the guest has stopped.
    pub stopped: bool,
}

impl Default for Status {
    fn default() -> (s: Self)
        ensures
            s == (Status {
                memory_bytes: 0,
                memory_plugged_bytes: 0,
                memory_max_bytes: 0,
                cpus: 0,
                cpus_max: 0,
                stopped: false,
            }),
    {
        Status {
            memory_bytes: 0,
            memory_plugged_bytes: 0,
            memory_max_bytes: 0,
            cpus: 0,
            cpus_max: 0,
            stopped: false,
        }
    }
}

/// A response.
#[derive(Clone, Debug, PartialEq, Eq)]
pub struct Response {
    /// Whether the request was carried out.
    pub ok: bool,
    /// The state after the request, when `ok`.
    pub status: Option<Status>,
    /// Why not, when not `ok`.
    pub error: Option<String>,
}

/// A [`Response`] with its text as a character sequence.
#[verifier::ext_equal]
pub struct ResponseView {
    pub ok: bool,
    pub status: Option<Status>,
    pub error: Option<Seq<char>>,
}

impl View for Response {
    type V = ResponseView;

    open spec fn view(&self) -> ResponseView {
        ResponseView {
            ok: self.ok,
            status: self.status,
            error: match self.error {
                Some(e) => Some(e@),
                None => None,
            },
        }
    }
}

/// The response to a request that was carried out.
pub open spec fn carried_out(s: Status) -> ResponseView {
    ResponseView { ok: true, status: Some(s), error: None }
}

/// The response to a request that was refused.
pub open spec fn refused(e: VmmErrorView) -> ResponseView {
    ResponseView { ok: false, status: None, error: Some(e.text()) }
}

impl Response {
    /// The response to what a request came to.
    pub fn from_result(r: Result<Status>) -> (a: Self)
        ensures
            a@ == (match r {
                Ok(s) => carried_out(s),
                Err(e) => refused(e@),
            }),
    {
        match r {
            Ok(s) => Response { ok: true, status: Some(s), error: None },
            Err(e) => Response { ok: false, status: None, error: Some(e.to_string()) },
        }
    }
}

/// What the control socket drives: the running VM, or a fake in tests.
pub trait Controller: Sized {
    /// What resizing memory to `bytes` may come to and leave. A controller that does not say
    /// promises nothing, here and below.
    open spec fn memory_resized(&self, bytes: u64, r: Result<Status>, after: &Self) -> bool {
        true
    }

    /// What resizing to `cpus` vCPUs may come to and leave.
    open spec fn cpus_resized(&self, cpus: u32, r: Result<Status>, after: &Self) -> bool {
        true
    }

    /// Whether `s` is the current state.
    open spec fn is_current(&self, s: Status) -> bool {
        true
    }

    /// What stopping leaves.
    open spec fn stops(&self, after: &Self) -> bool {
        true
    }

    /// The controller's own consistency.
    open spec fn wf(&self) -> bool {
        true
    }

    /// Resize memory to a total of `bytes`.
    fn resize_memory(&mut self, bytes: u64) -> (r: Result<Status>)
        requires
            old(self).wf(),
        ensures
            final(self).wf(),
            old(self).memory_resized(bytes, r, final(self)),
    ;

    /// Resize to `cpus` vCPUs.
    fn resize_cpus(&mut self, cpus: u32) -> (r: Result<Status>)
        requires
            old(self).wf(),
        ensures
            final(self).wf(),
            old(self).cpus_resized(cpus, r, final(self)),
    ;

    /// The current state.
    fn status(&self) -> (s: Status)
        requires
            self.wf(),
        ensures
            self.is_current(s),
    ;

    /// Stop the guest.
    fn stop(&mut self)
        requires
            old(self).wf(),
        ensures
            final(self).wf(),
            old(self).stops(final(self)),
    ;
}

/// What request `r` may be answered with, and what it may leave of the controller.
pub open spec fn handled<C: Controller>(
    before: C,
    r: Request,
    after: C,
    a: ResponseView,
) -> bool {
    match r {
        Request::ResizeMemory { bytes } => exists|o: Result<Status>| #[trigger]
            before.memory_resized(bytes, o, &after) && a == (match o {
                Ok(s) => carried_out(s),
                Err(e) => refused(e@),
            }),
        Request::ResizeCpus { cpus } => exists|o: Result<Status>| #[trigger]
            before.cpus_resized(cpus, o, &after) && a == (match o {
                Ok(s) => carried_out(s),
                Err(e) => refused(e@),
            }),
        Request::Status => after == before && exists|s: Status| #[trigger]
            before.is_current(s) && a == carried_out(s),
        Request::Stop => before.stops(&after) && exists|s: Status| #[trigger]
            after.is_current(s) && a == carried_out(s),
    }
}

/// Carry out one request.
pub fn handle<C: Controller>(c: &mut C, r: &Request) -> (a: Response)
    requires
        old(c).wf(),
    ensures
        final(c).wf(),
        handled(*old(c), *r, *final(c), a@),
{
    let r = match r {
        Request::ResizeMemory { bytes } => c.resize_memory(*bytes),
        Request::ResizeCpus { cpus } => c.resize_cpus(*cpus),
        Request::Status => Ok(c.status()),
        Request::Stop => {
            c.stop();
            Ok(c.status())
        },
    };
    Response::from_result(r)
}

/// What one request line asks, once it was read and parsed.
pub enum Line {
    /// The line was longer than [`LINE_MAX`].
    TooLong,
    /// The line is not a request, with the parser's reason.
    Bad(String),
    /// A request.
    Good(Request),
}

/// What reading up to one byte more than [`LINE_MAX`] gave.
#[derive(Clone, Copy, Debug, PartialEq, Eq, Structural)]
pub enum LineRead {
    /// Nothing: the peer closed.
    Closed,
    /// A line that may be parsed.
    Whole,
    /// A line that is too long.
    TooLong,
}

/// What reading `n` bytes of a line means.
pub fn line_read(n: usize) -> (r: LineRead)
    ensures
        r == (if n == 0 {
            LineRead::Closed
        } else if n > LINE_MAX {
            LineRead::TooLong
        } else {
            LineRead::Whole
        }),
{
    if n == 0 {
        LineRead::Closed
    } else if n > LINE_MAX {
        LineRead::TooLong
    } else {
        LineRead::Whole
    }
}

/// The answer to one request line, and whether the connection is closed after it: a line that
/// is too long is refused and closes it, garbage is refused.
pub fn answer<C: Controller>(c: &mut C, line: Line) -> (r: (Response, bool))
    requires
        old(c).wf(),
    ensures
        final(c).wf(),
        r.1 == (line is TooLong),
        match line {
            Line::TooLong => *final(c) == *old(c) && r.0@ == refused(
                VmmErrorView::Control("request longer than 4096 bytes"@),
            ),
            Line::Bad(why) => *final(c) == *old(c) && r.0@ == refused(
                VmmErrorView::Control("bad request: "@ + why@),
            ),
            Line::Good(q) => handled(*old(c), q, *final(c), r.0@),
        },
{
    match line {
        Line::TooLong => {
            let e = VmmError::Control("request longer than 4096 bytes".to_owned());
            (Response::from_result(Err(e)), true)
        },
        Line::Bad(why) => {
            let e = VmmError::Control(cat2("bad request: ", &why));
            (Response::from_result(Err(e)), false)
        },
        Line::Good(r) => (handle(c, &r), false),
    }
}

/// A response either carries the state or says why not, never both.
pub proof fn law_responses_say_one_thing(r: Result<Status>)
    ensures
        ({
            let a = match r {
                Ok(s) => carried_out(s),
                Err(e) => refused(e@),
            };
            &&& a.ok <==> a.status is Some
            &&& a.ok <==> a.error is None
            &&& a.ok <==> r is Ok
        }),
{
}

} // verus!
