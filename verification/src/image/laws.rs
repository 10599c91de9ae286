//! What a guest image is made of.

use super::{
    blob_at, blob_checked, digest_of, digest_ok, dir_kernel, first_of, hex_part, hex_text,
    lower_hex, oci_resolved, sha256_of, sorted, suits, BlobFact, Checked, Descriptor, DirFacts,
    Manifest, Sorted,
};
use crate::layout::Arch;
use crate::paths::joined;
use crate::text::digit_char;
use vstd::prelude::*;

verus! {

/// Whether layer `i` is of this type and is the file `p`, as the manifest says.
pub open spec fn is_layer(
    dir: Seq<char>,
    layers: Seq<Descriptor>,
    facts: Seq<BlobFact>,
    kind: Seq<char>,
    p: Seq<char>,
    i: int,
) -> bool {
    &&& layers[i].media_type@ == kind
    &&& p == blob_at(dir, layers[i].digest@)
    &&& facts[i] matches BlobFact::Found(size, got) && size == layers[i].size && (size
        <= 67108864 ==> got->Some_0@ == layers[i].digest@)
}

/// Whether a part of an image is its one layer of this type, among the first `n`; or there is none.
pub open spec fn part_is_layer(
    dir: Seq<char>,
    layers: Seq<Descriptor>,
    facts: Seq<BlobFact>,
    kind: Seq<char>,
    part: Option<Seq<char>>,
    n: int,
) -> bool {
    match part {
        Some(p) => exists|i: int|
            0 <= i < n && #[trigger] is_layer(dir, layers, facts, kind, p, i) && forall|j: int|
                0 <= j < n && j != i ==> (#[trigger] layers[j]).media_type@ != kind,
        None => forall|j: int| 0 <= j < n ==> (#[trigger] layers[j]).media_type@ != kind,
    }
}

proof fn lemma_part(
    dir: Seq<char>,
    layers: Seq<Descriptor>,
    facts: Seq<BlobFact>,
    kind: Seq<char>,
    before: Option<Seq<char>>,
    after: Option<Seq<char>>,
    n: int,
)
    requires
        n > 0,
        part_is_layer(dir, layers, facts, kind, before, n - 1),
        layers[n - 1].media_type@ != kind ==> after == before,
        layers[n - 1].media_type@ == kind ==> before is None && (after matches Some(p) && is_layer(
            dir,
            layers,
            facts,
            kind,
            p,
            n - 1,
        )),
    ensures
        part_is_layer(dir, layers, facts, kind, after, n),
{
    if layers[n - 1].media_type@ != kind {
        if let Some(p) = before {
            let i = choose|i: int|
                0 <= i < n - 1 && #[trigger] is_layer(dir, layers, facts, kind, p, i) && forall|
                    j: int,
                |
                    0 <= j < n - 1 && j != i ==> (#[trigger] layers[j]).media_type@ != kind;
            assert(is_layer(dir, layers, facts, kind, p, i));
        }
    }
}

proof fn lemma_kinds()
    ensures
        super::MEDIA_KERNEL@ == "application/vnd.moruna.guest.kernel.v1"@,
        super::MEDIA_INITRAMFS@ == "application/vnd.moruna.guest.initramfs.v1+gzip"@,
        super::MEDIA_ROOTFS@ == "application/vnd.moruna.guest.rootfs.v1.erofs"@,
        "application/vnd.moruna.guest.kernel.v1"@.len() == 38,
        "application/vnd.moruna.guest.initramfs.v1+gzip"@.len() == 46,
        "application/vnd.moruna.guest.rootfs.v1.erofs"@.len() == 44,
{
    reveal_strlit("application/vnd.moruna.guest.kernel.v1");
    reveal_strlit("application/vnd.moruna.guest.initramfs.v1+gzip");
    reveal_strlit("application/vnd.moruna.guest.rootfs.v1.erofs");
}

proof fn lemma_sorted(
    dir: Seq<char>,
    manifest: Seq<char>,
    layers: Seq<Descriptor>,
    facts: Seq<BlobFact>,
    n: nat,
)
    requires
        n <= layers.len(),
    ensures
        sorted(dir, manifest, layers, facts, n) matches Sorted::Good(st) ==> {
            let k = "application/vnd.moruna.guest.kernel.v1"@;
            let i = "application/vnd.moruna.guest.initramfs.v1+gzip"@;
            let r = "application/vnd.moruna.guest.rootfs.v1.erofs"@;
            &&& part_is_layer(dir, layers, facts, k, st.kernel, n as int)
            &&& part_is_layer(dir, layers, facts, i, st.initramfs, n as int)
            &&& part_is_layer(dir, layers, facts, r, st.rootfs, n as int)
            &&& forall|j: int|
                0 <= j < n ==> (#[trigger] layers[j]).media_type@ == k || layers[j].media_type@ == i
                    || layers[j].media_type@ == r
        },
    decreases n,
{
    if n > 0 {
        lemma_sorted(dir, manifest, layers, facts, (n - 1) as nat);
        lemma_kinds();
        let k = "application/vnd.moruna.guest.kernel.v1"@;
        let i = "application/vnd.moruna.guest.initramfs.v1+gzip"@;
        let r = "application/vnd.moruna.guest.rootfs.v1.erofs"@;
        if let Sorted::Good(b) = sorted(dir, manifest, layers, facts, (n - 1) as nat) {
            if let Sorted::Good(a) = sorted(dir, manifest, layers, facts, n) {
                lemma_part(dir, layers, facts, k, b.kernel, a.kernel, n as int);
                lemma_part(dir, layers, facts, i, b.initramfs, a.initramfs, n as int);
                lemma_part(dir, layers, facts, r, b.rootfs, a.rootfs, n as int);
            }
        }
    }
}

/// An image that is accepted is its layers: the kernel, the initramfs and the root filesystem are
/// each the one layer of their type, as large as the manifest says and, up to 64 MiB, with the digest
/// that it says; there is a kernel; and there is no layer of any other type.
pub proof fn law_an_image_is_its_layers(
    dir: Seq<char>,
    manifest: Seq<char>,
    m: Manifest,
    facts: Seq<BlobFact>,
    digest: Seq<char>,
)
    ensures
        oci_resolved(dir, manifest, m, facts, digest) matches Ok(v) ==> {
            let k = "application/vnd.moruna.guest.kernel.v1"@;
            let i = "application/vnd.moruna.guest.initramfs.v1+gzip"@;
            let r = "application/vnd.moruna.guest.rootfs.v1.erofs"@;
            let n = m.layers@.len() as int;
            &&& part_is_layer(dir, m.layers@, facts, k, Some(v.kernel), n)
            &&& part_is_layer(dir, m.layers@, facts, i, v.initramfs, n)
            &&& part_is_layer(dir, m.layers@, facts, r, v.rootfs, n)
            &&& v.digest == Some(digest)
            &&& m.artifact_type matches Some(t) && t@ == "application/vnd.moruna.guest.v1"@
            &&& forall|j: int|
                0 <= j < n ==> (#[trigger] m.layers@[j]).media_type@ == k
                    || m.layers@[j].media_type@ == i || m.layers@[j].media_type@ == r
        },
{
    lemma_sorted(dir, manifest, m.layers@, facts, m.layers@.len());
}

/// A file of an image is accepted exactly if its digest is one, and it is there, of the size that is
/// said, and where it is no larger than 64 MiB, of that digest. Its place follows from its digest.
pub proof fn law_which_files_are_accepted(dir: Seq<char>, d: Descriptor, fact: BlobFact)
    ensures
        blob_checked(dir, d, fact) is Good <==> digest_ok(d.digest@) && (
        fact matches BlobFact::Found(size, got) && size == d.size && (size <= 67108864
            ==> got->Some_0@ == d.digest@)),
        blob_checked(dir, d, fact) matches Checked::Good(p) ==> p == blob_at(dir, d.digest@),
{
}

/// Whether this character is the lower-case digit of this value.
pub open spec fn is_hex_of(c: char, v: int) -> bool {
    if v < 10 {
        c as int == '0' as int + v
    } else {
        c as int == 'a' as int + v - 10
    }
}

/// Bytes are written as two digits each, the high one first.
pub proof fn law_bytes_are_written_in_two_digits(b: Seq<u8>, i: int)
    requires
        0 <= i < b.len(),
    ensures
        hex_text(b).len() == 2 * b.len(),
        is_hex_of(hex_text(b)[2 * i], b[i] as int / 16),
        is_hex_of(hex_text(b)[2 * i + 1], b[i] as int % 16),
    decreases b.len(),
{
    let t = b.drop_last();
    let s = hex_text(t);
    lemma_hex_len(t);
    if i < t.len() {
        law_bytes_are_written_in_two_digits(t, i);
        assert(hex_text(b)[2 * i] == s[2 * i]);
        assert(hex_text(b)[2 * i + 1] == s[2 * i + 1]);
    } else {
        let high = b.last() as nat / 16;
        let low = b.last() as nat % 16;
        assert(hex_text(b)[2 * i] == digit_char(high));
        assert(hex_text(b)[2 * i + 1] == digit_char(low));
    }
}

proof fn lemma_hex_len(b: Seq<u8>)
    ensures
        hex_text(b).len() == 2 * b.len(),
    decreases b.len(),
{
    if b.len() > 0 {
        lemma_hex_len(b.drop_last());
    }
}

/// A digest that is computed is one that is accepted: the name of the hash, and 64 digits.
pub proof fn law_computed_digests_are_well_formed(content: Seq<u8>)
    requires
        sha256_of(content).len() == 32,
    ensures
        digest_ok(digest_of(content)),
        digest_of(content).len() == 71,
        digest_of(content).subrange(0, 7) == seq!['s', 'h', 'a', '2', '5', '6', ':'],
        hex_part(digest_of(content)) == hex_text(sha256_of(content)),
{
    reveal_strlit("sha256:");
    let h = sha256_of(content);
    let t = hex_text(h);
    let d = digest_of(content);
    lemma_hex_len(h);
    assert(d.subrange(0, 7) =~= "sha256:"@);
    assert("sha256:"@ =~= seq!['s', 'h', 'a', '2', '5', '6', ':']);
    assert(d.subrange(7, d.len() as int) =~= t);
    assert forall|i: int| 0 <= i < t.len() implies lower_hex(#[trigger] t[i]) by {
        law_bytes_are_written_in_two_digits(h, i / 2);
        assert(i == 2 * (i / 2) || i == 2 * (i / 2) + 1);
    }
}

/// Files of different digests are in different places.
pub proof fn law_files_have_their_own_places(dir: Seq<char>, a: Seq<char>, b: Seq<char>)
    requires
        digest_ok(a),
        digest_ok(b),
        blob_at(dir, a) == blob_at(dir, b),
    ensures
        a == b,
{
    let p = joined(joined(dir, "blobs"@), "sha256"@);
    let head = if p.len() == 0 || p.last() == '/' {
        p
    } else {
        p + "/"@
    };
    assert(blob_at(dir, a) == head + hex_part(a));
    assert(blob_at(dir, b) == head + hex_part(b));
    assert((head + hex_part(a)).skip(head.len() as int) =~= hex_part(a));
    assert((head + hex_part(b)).skip(head.len() as int) =~= hex_part(b));
    let n = "sha256:"@.len() as int;
    assert(a =~= a.subrange(0, n) + hex_part(a));
    assert(b =~= b.subrange(0, n) + hex_part(b));
}

/// The first of the names that is there is taken.
pub proof fn law_the_first_name_is_taken(
    dir: Seq<char>,
    names: Seq<&'static str>,
    present: Seq<bool>,
    i: int,
)
    requires
        names.len() == present.len(),
    ensures
        0 <= i < names.len() && present[i] && (forall|j: int| 0 <= j < i ==> !present[j])
            ==> first_of(dir, names, present) == Some(joined(dir, names[i]@)),
        (forall|j: int| 0 <= j < present.len() ==> !present[j]) <==> first_of(dir, names, present)
            is None,
    decreases names.len(),
{
    if names.len() > 0 {
        let n = names.subrange(1, names.len() as int);
        let p = present.subrange(1, present.len() as int);
        law_the_first_name_is_taken(dir, n, p, i - 1);
        assert(forall|j: int| 0 <= j < p.len() ==> p[j] == present[j + 1]);
        if !present[0] {
            if first_of(dir, names, present) is None {
                assert forall|j: int| 0 <= j < present.len() implies !present[j] by {
                    if j > 0 {
                        assert(!p[j - 1]);
                    }
                }
            }
            if forall|j: int| 0 <= j < present.len() ==> !present[j] {
                assert forall|j: int| 0 <= j < p.len() implies !p[j] by {
                    assert(!present[j + 1]);
                }
            }
            if 0 < i < names.len() && present[i] && forall|j: int| 0 <= j < i ==> !present[j] {
                assert(p[i - 1]);
                assert forall|j: int| 0 <= j < i - 1 implies !p[j] by {
                    assert(!present[j + 1]);
                }
            }
        }
    }
}

/// An x86_64 image directory has its kernel as `vmlinux`, or else as `bzImage`; an aarch64 one as
/// `Image`.
pub proof fn law_what_a_kernel_is_called(dir: Seq<char>, facts: DirFacts)
    ensures
        facts.kernels@.len() == 2 ==> dir_kernel(Arch::X86_64, dir, facts) == if facts.kernels@[0] {
            Some(joined(dir, "vmlinux"@))
        } else if facts.kernels@[1] {
            Some(joined(dir, "bzImage"@))
        } else {
            None
        },
        facts.kernels@.len() == 1 ==> dir_kernel(Arch::Aarch64, dir, facts) == if facts.kernels@[0] {
            Some(joined(dir, "Image"@))
        } else {
            None
        },
{
    reveal_with_fuel(first_of, 4);
}

/// A manifest suits a machine if it is for Linux on that machine's architecture, or for any.
pub proof fn law_which_manifests_suit(d: Descriptor)
    ensures
        d.platform is None ==> suits(d, Arch::X86_64) && suits(d, Arch::Aarch64),
        d.platform matches Some(p) ==> {
            &&& suits(d, Arch::X86_64) <==> p.architecture@ == seq!['a', 'm', 'd', '6', '4'] && p.os@
                == seq!['l', 'i', 'n', 'u', 'x']
            &&& suits(d, Arch::Aarch64) <==> p.architecture@ == seq!['a', 'r', 'm', '6', '4']
                && p.os@ == seq!['l', 'i', 'n', 'u', 'x']
        },
{
    reveal_strlit("amd64");
    reveal_strlit("arm64");
    reveal_strlit("linux");
    assert("amd64"@ =~= seq!['a', 'm', 'd', '6', '4']);
    assert("arm64"@ =~= seq!['a', 'r', 'm', '6', '4']);
    assert("linux"@ =~= seq!['l', 'i', 'n', 'u', 'x']);
}

} // verus!
