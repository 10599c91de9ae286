//! What an error tells.

use super::{MorunaErrorView, VmmErrorView};
use crate::text::{begins, dec, ends};
use vstd::prelude::*;

verus! {

/// The exit code tells whose fault it was: 2 where the host can mend what it asked for, its own
/// configuration, the image, or a machine that cannot run guests; 8 where something failed.
pub proof fn law_exit_codes_tell_whose_fault_it_was(e: VmmErrorView)
    ensures
        e.exit_code() == 2 <==> e is Config || e is Image || e is NoKvm || e is Unsupported,
        e.exit_code() == 8 <==> e is Io || e is Hypervisor || e is Device || e is Control,
{
}

/// What went wrong, without what it went wrong with.
pub open spec fn message(e: VmmErrorView) -> Seq<char> {
    match e {
        VmmErrorView::Config { field, msg } => msg,
        VmmErrorView::NoKvm(m) => m,
        VmmErrorView::Image { path, msg } => msg,
        VmmErrorView::Io { op, target, msg } => msg,
        VmmErrorView::Hypervisor { op, msg } => msg,
        VmmErrorView::Device { device, msg } => msg,
        VmmErrorView::Control(m) => m,
        VmmErrorView::Unsupported(m) => m,
    }
}

/// Whether a text holds another.
pub open spec fn mentions(s: Seq<char>, t: Seq<char>) -> bool {
    exists|i: int| #[trigger] mentions_at(s, t, i)
}

/// Whether a text holds another at `i`.
pub open spec fn mentions_at(s: Seq<char>, t: Seq<char>, i: int) -> bool {
    0 <= i && i + t.len() <= s.len() && s.subrange(i, i + t.len()) == t
}

proof fn lemma_mentions(a: Seq<char>, t: Seq<char>, z: Seq<char>)
    ensures
        mentions(a + t + z, t),
{
    let s = a + t + z;
    assert(s.subrange(a.len() as int, a.len() + t.len() as int) =~= t);
    assert(mentions_at(s, t, a.len() as int));
}

proof fn lemma_ends(a: Seq<char>, t: Seq<char>)
    ensures
        ends(a + t, t),
{
    let s = a + t;
    assert(s.subrange(s.len() - t.len(), s.len() as int) =~= t);
}

/// An error's text ends in what went wrong, and names what it went wrong with.
pub proof fn law_texts_tell_what_went_wrong(e: VmmErrorView)
    ensures
        ends(e.text(), message(e)),
        e matches VmmErrorView::Config { field, .. } ==> mentions(e.text(), field),
        e matches VmmErrorView::Image { path, .. } ==> mentions(e.text(), path),
        e matches VmmErrorView::Io { op, target, .. } ==> mentions(e.text(), op) && mentions(
            e.text(),
            target,
        ),
        e matches VmmErrorView::Hypervisor { op, .. } ==> mentions(e.text(), op),
        e matches VmmErrorView::Device { device, .. } ==> mentions(e.text(), device),
{
    match e {
        VmmErrorView::Config { field, msg } => {
            lemma_mentions("config "@, field, ": "@ + msg);
            assert("config "@ + field + (": "@ + msg) =~= e.text());
            lemma_ends("config "@ + field + ": "@, msg);
        },
        VmmErrorView::NoKvm(m) => {
            lemma_ends("/dev/kvm: "@, m);
        },
        VmmErrorView::Image { path, msg } => {
            lemma_mentions("image "@, path, ": "@ + msg);
            assert("image "@ + path + (": "@ + msg) =~= e.text());
            lemma_ends("image "@ + path + ": "@, msg);
        },
        VmmErrorView::Io { op, target, msg } => {
            lemma_mentions("io "@, op, " "@ + target + (": "@ + msg));
            assert("io "@ + op + (" "@ + target + (": "@ + msg)) =~= e.text());
            lemma_mentions("io "@ + op + " "@, target, ": "@ + msg);
            lemma_ends("io "@ + op + " "@ + target + ": "@, msg);
            assert("io "@ + op + " "@ + target + ": "@ + msg =~= e.text());
        },
        VmmErrorView::Hypervisor { op, msg } => {
            lemma_mentions("kvm "@, op, ": "@ + msg);
            assert("kvm "@ + op + (": "@ + msg) =~= e.text());
            lemma_ends("kvm "@ + op + ": "@, msg);
        },
        VmmErrorView::Device { device, msg } => {
            lemma_mentions("device "@, device, ": "@ + msg);
            assert("device "@ + device + (": "@ + msg) =~= e.text());
            lemma_ends("device "@ + device + ": "@, msg);
        },
        VmmErrorView::Control(m) => {
            lemma_ends("control: "@, m);
        },
        VmmErrorView::Unsupported(m) => {
            lemma_ends("unsupported: "@, m);
        },
    }
}

/// An error that is handed on says no less: what went wrong is in it, and so is what a flag or a
/// target was called. It is one of the configuration where the host asked for what cannot be, and of
/// input and output otherwise.
pub proof fn law_errors_are_handed_on(e: VmmErrorView)
    ensures
        ends(e.shared().text(), message(e)),
        e.shared() is Config <==> e is Config || e is Unsupported,
        e.shared() is Config || e.shared() is Io,
        e matches VmmErrorView::Config { field, msg } ==> e.shared() == (MorunaErrorView::Config {
            name: field,
            msg,
        }),
        e matches VmmErrorView::Io { op, target, msg } ==> e.shared() == (MorunaErrorView::Io {
            op,
            target,
            msg,
        }),
        e is Image || e is Hypervisor || e is Device || e is Control || e is NoKvm ==> ends(
            e.shared().text(),
            e.text(),
        ),
{
    law_texts_tell_what_went_wrong(e);
    let m = message(e);
    match e.shared() {
        MorunaErrorView::Config { name, msg } => {
            let head = "config "@ + name + ": "@;
            lemma_ends(head, msg);
            if e is Unsupported {
                lemma_ends(head + "unsupported: "@, m);
                assert(head + "unsupported: "@ + m =~= head + ("unsupported: "@ + m));
            }
        },
        MorunaErrorView::Io { op, target, msg } => {
            let head = "io "@ + op + " "@ + target + ": "@;
            assert(head + msg =~= e.shared().text());
            lemma_ends(head, msg);
            if !(e is Io) {
                let k = msg.len() - m.len();
                assert(msg =~= msg.subrange(0, k) + m);
                lemma_ends(head + msg.subrange(0, k), m);
                assert(head + msg.subrange(0, k) + m =~= head + msg);
            }
        },
        _ => {},
    }
}

/// An allocation that is refused says how much was asked for, how much there is, and how much of it
/// is in use, in that order.
pub proof fn law_a_refused_allocation_says_how_much(e: MorunaErrorView)
    requires
        e is Alloc,
    ensures
        begins(e.text(), "alloc "@ + dec(e->bytes as nat) + " bytes: budget "@ + dec(
            e->budget as nat,
        )),
        ends(e.text(), dec(e->in_use as nat)),
{
    let head = "alloc "@ + dec(e->bytes as nat) + " bytes: budget "@ + dec(e->budget as nat);
    let t = e.text();
    let end = ", in use "@ + dec(e->in_use as nat);
    assert(t =~= head + end);
    assert(t.subrange(0, head.len() as int) =~= head);
    assert(t =~= (head + ", in use "@) + dec(e->in_use as nat));
    lemma_ends(head + ", in use "@, dec(e->in_use as nat));
}

} // verus!
